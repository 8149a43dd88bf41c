use powerjack::error::DecodeError;
use powerjack::vpk::{VpkDirectoryEntry, VpkHeader};
use powerjack::vtf::{VtfResource, VtfTextureFormat};

#[test]
fn texture_format_sizes() {
    assert_eq!(VtfTextureFormat::Rgba8888.bpp(), 32);
    assert_eq!(VtfTextureFormat::Dxt1.bpp(), 4);
    assert_eq!(VtfTextureFormat::NoFormat.bpp(), 0);
    assert_eq!(VtfTextureFormat::Dxt1.data_size(16, 16, 1), 128);
    assert_eq!(VtfTextureFormat::Dxt5.data_size(5, 4, 1), 32);
    assert_eq!(VtfTextureFormat::Rgba8888.data_size(4, 4, 1), 64);
    assert_eq!(VtfTextureFormat::Rgb888.data_size(3, 1, 2), 18);
}

#[test]
fn resource_entry() {
    let r = VtfResource::read(&[0x30, 0, 0, 2, 0x50, 0, 0, 0]).unwrap();
    assert_eq!(r.tag, [0x30, 0, 0]);
    assert_eq!(r.flags, 2);
    assert_eq!(r.offset, 0x50);
    assert!(matches!(VtfResource::read(&[0; 7]), Err(DecodeError::TruncatedInput)));
}

#[test]
fn package_header() {
    let mut b = vec![0x34, 0x12, 0xAA, 0x55];
    for v in [2u32, 100, 0, 0, 48, 296] {
        b.extend_from_slice(&v.to_le_bytes());
    }
    let h = VpkHeader::read(&b).unwrap();
    assert_eq!(h.tree_size, 100);
    assert_eq!(h.signature_section_size, 296);
    b[4] = 1;
    assert_eq!(VpkHeader::read(&b), Err(DecodeError::MalformedHeader));
}

#[test]
fn package_entry_preload() {
    let mut b = Vec::new();
    b.extend_from_slice(&7u32.to_le_bytes());
    b.extend_from_slice(&3u16.to_le_bytes());
    b.extend_from_slice(&0x7FFFu16.to_le_bytes());
    b.extend_from_slice(&0u32.to_le_bytes());
    b.extend_from_slice(&10u32.to_le_bytes());
    b.extend_from_slice(&0xFFFFu16.to_le_bytes());
    let e = VpkDirectoryEntry::read(&b).unwrap();
    assert!(e.is_preload());
    assert_eq!(e.entry_length, 10);
    b[4] = 0;
    let e = VpkDirectoryEntry::read(&b).unwrap();
    assert!(!e.is_preload());
    b[16] = 0;
    assert_eq!(VpkDirectoryEntry::read(&b), Err(DecodeError::MalformedHeader));
}

#[test]
fn block_format_size_needs_no_headroom() {
    assert_eq!(VtfTextureFormat::Dxt5.data_size(1, 1 << 28, 1), 1 << 30);
    assert_eq!(VtfTextureFormat::Dxt1.data_size(1, 1, 1), 8);
    assert_eq!(VtfTextureFormat::Dxt5.data_size(5, 5, 1), 64);
}
