use vstd::prelude::*;

use crate::error::DecodeError;
use crate::lumps::{u16_at, u32_at};
use crate::reader::{le_u16, le_u32};

verus! {

/// The header of a package directory file (version 2).
#[derive(Debug, Clone, Copy, PartialEq, Eq, Structural)]
pub struct VpkHeader {
    pub version: u32,
    /// Bytes of the directory tree.
    pub tree_size: u32,
    /// Bytes of file content stored in this file.
    pub file_data_section_size: u32,
    /// Bytes of the checksums of content in other archives.
    pub archive_md5_section_size: u32,
    /// Bytes of the checksums of content in this file.
    pub other_md5_section_size: u32,
    /// Bytes of the public key and signature.
    pub signature_section_size: u32,
}

/// Byte size of the header.
pub const VPK_HEADER_SIZE: usize = 28;

pub open spec fn vpk_magic() -> Seq<u8> {
    seq![0x34u8, 0x12, 0xAA, 0x55]
}

impl VpkHeader {
    /// Checks the magic and the version (2) and reads the section sizes.
    pub fn read(b: &[u8]) -> (r: Result<VpkHeader, DecodeError>)
        ensures
            b@.len() < VPK_HEADER_SIZE ==> r == Err::<VpkHeader, DecodeError>(
                DecodeError::TruncatedInput,
            ),
            b@.len() >= VPK_HEADER_SIZE && (b@.subrange(0, 4) != vpk_magic() || le_u32(b@, 4)
                != 2) ==> r == Err::<VpkHeader, DecodeError>(DecodeError::MalformedHeader),
            b@.len() >= VPK_HEADER_SIZE && b@.subrange(0, 4) == vpk_magic() && le_u32(b@, 4) == 2
                ==> r == Ok::<VpkHeader, DecodeError>(
                VpkHeader {
                    version: 2,
                    tree_size: le_u32(b@, 8) as u32,
                    file_data_section_size: le_u32(b@, 12) as u32,
                    archive_md5_section_size: le_u32(b@, 16) as u32,
                    other_md5_section_size: le_u32(b@, 20) as u32,
                    signature_section_size: le_u32(b@, 24) as u32,
                },
            ),
    {
        if b.len() < VPK_HEADER_SIZE {
            return Err(DecodeError::TruncatedInput);
        }
        let magic_ok = b[0] == 0x34 && b[1] == 0x12 && b[2] == 0xAA && b[3] == 0x55;
        proof {
            let m = b@.subrange(0, 4);
            if magic_ok {
                assert(m =~= vpk_magic());
            } else if m == vpk_magic() {
                assert(m[0] == b@[0] && m[1] == b@[1] && m[2] == b@[2] && m[3] == b@[3]);
            }
        }
        let version = u32_at(b, 4);
        if !magic_ok || version != 2 {
            return Err(DecodeError::MalformedHeader);
        }
        Ok(
            VpkHeader {
                version,
                tree_size: u32_at(b, 8),
                file_data_section_size: u32_at(b, 12),
                archive_md5_section_size: u32_at(b, 16),
                other_md5_section_size: u32_at(b, 20),
                signature_section_size: u32_at(b, 24),
            },
        )
    }
}

/// Where one packaged file lives.
#[derive(Debug, Clone, Copy, PartialEq, Eq, Structural)]
pub struct VpkDirectoryEntry {
    pub crc: u32,
    pub preload_bytes: u16,
    pub archive_index: u16,
    pub entry_offset: u32,
    pub entry_length: u32,
    pub terminator: u16,
}

impl VpkDirectoryEntry {
    /// Reads an 18-byte entry, which must end with the terminator 0xFFFF.
    pub fn read(b: &[u8]) -> (r: Result<VpkDirectoryEntry, DecodeError>)
        ensures
            b@.len() < 18 ==> r == Err::<VpkDirectoryEntry, DecodeError>(
                DecodeError::TruncatedInput,
            ),
            b@.len() >= 18 && le_u16(b@, 16) != 0xFFFF ==> r == Err::<
                VpkDirectoryEntry,
                DecodeError,
            >(DecodeError::MalformedHeader),
            b@.len() >= 18 && le_u16(b@, 16) == 0xFFFF ==> r == Ok::<VpkDirectoryEntry, DecodeError>(
                VpkDirectoryEntry {
                    crc: le_u32(b@, 0) as u32,
                    preload_bytes: le_u16(b@, 4) as u16,
                    archive_index: le_u16(b@, 6) as u16,
                    entry_offset: le_u32(b@, 8) as u32,
                    entry_length: le_u32(b@, 12) as u32,
                    terminator: 0xFFFF,
                },
            ),
    {
        if b.len() < 18 {
            return Err(DecodeError::TruncatedInput);
        }
        let terminator = u16_at(b, 16);
        if terminator != 0xFFFF {
            return Err(DecodeError::MalformedHeader);
        }
        Ok(
            VpkDirectoryEntry {
                crc: u32_at(b, 0),
                preload_bytes: u16_at(b, 4),
                archive_index: u16_at(b, 6),
                entry_offset: u32_at(b, 8),
                entry_length: u32_at(b, 12),
                terminator,
            },
        )
    }

    /// Part of the file is stored in the directory itself.
    pub fn is_preload(&self) -> (r: bool)
        ensures
            r == (self.preload_bytes > 0),
    {
        self.preload_bytes > 0
    }
}

} // verus!
