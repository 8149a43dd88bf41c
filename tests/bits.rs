use powerjack::bits::{BitAngle, BitReader, CoordVec3};
use powerjack::error::DecodeError;

struct BitWriter {
    bytes: Vec<u8>,
    bit: usize,
}

impl BitWriter {
    fn new() -> Self {
        BitWriter { bytes: Vec::new(), bit: 0 }
    }

    fn put(&mut self, value: u64, n: usize) {
        for i in 0..n {
            if self.bit / 8 >= self.bytes.len() {
                self.bytes.push(0);
            }
            if (value >> i) & 1 == 1 {
                self.bytes[self.bit / 8] |= 1 << (self.bit % 8);
            }
            self.bit += 1;
        }
    }

    fn finish(self) -> Vec<u8> {
        self.bytes
    }
}

#[test]
fn read_bit_is_lsb_first() {
    let mut br = BitReader::new(vec![0b0000_0101]);
    assert_eq!(br.read_bit(), Ok(true));
    assert_eq!(br.read_bit(), Ok(false));
    assert_eq!(br.read_bit(), Ok(true));
    assert_eq!(br.position(), 3);
    assert_eq!(br.bits_remaining(), 5);
}

#[test]
fn read_bit_past_end_is_error() {
    let mut br = BitReader::new(vec![]);
    assert_eq!(br.read_bit(), Err(DecodeError::TruncatedInput));
    assert_eq!(br.position(), 0);
}

#[test]
fn read_bits_across_bytes() {
    let mut br = BitReader::new(vec![0xF0, 0x0F]);
    assert_eq!(br.read_bits(4), Ok(0));
    assert_eq!(br.read_bits(8), Ok(0xFF));
    assert_eq!(br.read_bits(4), Ok(0));
    assert_eq!(br.read_bits(1), Err(DecodeError::TruncatedInput));
    assert_eq!(br.position(), 16);
}

#[test]
fn read_bits_full_width() {
    let mut br = BitReader::new(vec![0x78, 0x56, 0x34, 0x12]);
    assert_eq!(br.read_bits(32), Ok(0x1234_5678));
}

#[test]
fn read_bits_split_matches_single_read() {
    let data = vec![0xA5, 0x3C, 0x7E, 0x91, 0x42];
    for n in 2..=32usize {
        for k in 1..n {
            let mut whole = BitReader::new(data.clone());
            whole.read_bits(3).unwrap();
            let v = whole.read_bits(n).unwrap() as u64;
            let mut parts = BitReader::new(data.clone());
            parts.read_bits(3).unwrap();
            let lo = parts.read_bits(k).unwrap() as u64;
            let hi = parts.read_bits(n - k).unwrap() as u64;
            assert_eq!(v, lo | (hi << k));
            assert_eq!(whole.position(), parts.position());
        }
    }
}

#[test]
fn read_bits_vec_pads_last_byte() {
    let mut br = BitReader::new(vec![0xFF, 0xFF]);
    br.read_bits(1).unwrap();
    assert_eq!(br.read_bits_vec(10), Ok(vec![0xFF, 0x03]));
    assert_eq!(br.position(), 11);
    assert_eq!(br.read_bits_vec(6), Err(DecodeError::TruncatedInput));
    assert_eq!(br.position(), 11);
}

#[test]
fn read_bytes_unaligned() {
    let mut w = BitWriter::new();
    w.put(1, 3);
    w.put(0xAB, 8);
    w.put(0xCD, 8);
    let mut br = BitReader::new(w.finish());
    br.read_bits(3).unwrap();
    assert_eq!(br.read_bytes(2), Ok(vec![0xAB, 0xCD]));
}

#[test]
fn read_signed_fields() {
    let mut br = BitReader::new(vec![0xFE, 0xFF, 0x02, 0x00, 0xFF, 0xFF, 0xFF, 0xFF]);
    assert_eq!(br.read_i16(), Ok(-2));
    assert_eq!(br.read_u16(), Ok(2));
    assert_eq!(br.read_i32(), Ok(-1));
}

fn encode_coord(w: &mut BitWriter, thirty_seconds: i64) {
    let neg = thirty_seconds < 0;
    let mag = thirty_seconds.unsigned_abs();
    let int_part = mag / 32;
    let frac = mag % 32;
    let has_int = int_part > 0;
    let has_frac = frac > 0;
    w.put(has_int as u64, 1);
    w.put(has_frac as u64, 1);
    if !has_int && !has_frac {
        return;
    }
    w.put(neg as u64, 1);
    if has_int {
        w.put(int_part - 1, 14);
    }
    if has_frac {
        w.put(frac, 5);
    }
}

#[test]
fn compressed_float_round_trip() {
    for value in [0.0f64, 1.5, -1.5, 16383.96875] {
        let units = (value * 32.0).round() as i64;
        let mut w = BitWriter::new();
        encode_coord(&mut w, units);
        let mut br = BitReader::new(w.finish());
        let got = br.read_float_compressed().unwrap();
        assert_eq!(got as i64, units);
        assert!((got as f64 / 32.0 - value).abs() <= 1.0 / 32.0);
    }
}

#[test]
fn compressed_float_exact_values() {
    let mut w = BitWriter::new();
    encode_coord(&mut w, 48);
    encode_coord(&mut w, -48);
    encode_coord(&mut w, 524287);
    let mut br = BitReader::new(w.finish());
    assert_eq!(br.read_float_compressed(), Ok(48));
    assert_eq!(br.read_float_compressed(), Ok(-48));
    assert_eq!(br.read_float_compressed(), Ok(524287));
}

#[test]
fn compressed_float_zero_takes_two_bits() {
    let mut br = BitReader::new(vec![0x00]);
    assert_eq!(br.read_float_compressed(), Ok(0));
    assert_eq!(br.position(), 2);
}

#[test]
fn compressed_float_truncated_keeps_position() {
    let mut w = BitWriter::new();
    w.put(1, 1);
    w.put(0, 1);
    w.put(0, 1);
    let mut br = BitReader::new(w.finish());
    assert_eq!(br.read_float_compressed(), Err(DecodeError::TruncatedInput));
    assert_eq!(br.position(), 0);
}

#[test]
fn compressed_vector_absent_axes_are_zero() {
    let mut w = BitWriter::new();
    w.put(1, 1);
    w.put(0, 1);
    w.put(1, 1);
    encode_coord(&mut w, 64);
    encode_coord(&mut w, -16);
    let mut br = BitReader::new(w.finish());
    assert_eq!(br.read_vec3_compressed(), Ok(CoordVec3 { x: 64, y: 0, z: -16 }));
}

#[test]
fn angle_keeps_raw_value_and_width() {
    let mut br = BitReader::new(vec![0x00, 0x40]);
    assert_eq!(br.read_angle(16), Ok(BitAngle { raw: 0x4000, bits: 16 }));
}

#[test]
fn varint_single_byte() {
    let mut br = BitReader::new(vec![0x01]);
    assert_eq!(br.read_varint32(), Ok(1));
}

#[test]
fn varint_two_bytes() {
    let mut br = BitReader::new(vec![0x80, 0x01]);
    assert_eq!(br.read_varint32(), Ok(128));
    assert_eq!(br.position(), 16);
}

#[test]
fn varint_max_value() {
    let mut br = BitReader::new(vec![0xFF, 0xFF, 0xFF, 0xFF, 0x0F]);
    assert_eq!(br.read_varint32(), Ok(4294967295));
}

#[test]
fn varint_truncated() {
    let mut br = BitReader::new(vec![0x80]);
    assert_eq!(br.read_varint32(), Err(DecodeError::TruncatedInput));
    assert_eq!(br.position(), 0);
}

#[test]
fn varint_stops_after_five_bytes() {
    let mut br = BitReader::new(vec![0x81, 0x80, 0x80, 0x80, 0x80, 0x01]);
    assert_eq!(br.read_varint32(), Ok(1));
    assert_eq!(br.position(), 40);
}

#[test]
fn remaining_bytes_skips_partial_byte() {
    let mut br = BitReader::new(vec![1, 2, 3]);
    br.read_bits(3).unwrap();
    assert_eq!(br.remaining_bytes(), vec![2, 3]);
}

#[test]
fn nullstring_reads_text() {
    let mut w = BitWriter::new();
    w.put(0, 2);
    for b in b"hi\0x" {
        w.put(*b as u64, 8);
    }
    let mut br = BitReader::new(w.finish());
    br.read_bits(2).unwrap();
    assert_eq!(br.read_nullstring(), Ok("hi".to_string()));
    assert_eq!(br.position(), 26);
}

#[test]
fn nullstring_replaces_invalid_utf8() {
    let mut br = BitReader::new(vec![0xFF, b'a', 0]);
    assert_eq!(br.read_nullstring(), Ok("\u{FFFD}a".to_string()));
}

#[test]
fn nullstring_without_terminator() {
    let mut br = BitReader::new(b"abc".to_vec());
    assert_eq!(br.read_null_bytestring(), Err(DecodeError::TruncatedInput));
    assert_eq!(br.position(), 0);
}

#[test]
fn optional_field() {
    let mut w = BitWriter::new();
    w.put(0, 1);
    w.put(1, 1);
    w.put(0x2A, 8);
    let mut br = BitReader::new(w.finish());
    assert_eq!(br.read_optional(8), Ok(None));
    assert_eq!(br.read_optional(8), Ok(Some(0x2A)));
    assert_eq!(br.position(), 10);
}

#[test]
fn nullstring_consumes_terminator() {
    let mut br = BitReader::new(vec![0x68, 0x69, 0x00, 0x41]);
    assert_eq!(br.read_nullstring(), Ok("hi".to_string()));
    assert_eq!(br.bits_remaining(), 8);
}
