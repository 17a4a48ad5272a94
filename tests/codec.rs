use soi_tools::model::mesh_payload_span;
use soi_tools::quant::dequantize;
use soi_tools::store::decode_zlib_data;
use soi_tools::strings::{clean_path, clean_string, try_clean_string};
use soi_tools::vector::{Vector3, Vector3i16, Vector4, Vector4i16};

#[test]
fn dequantize_unit_vector() {
    let v = Vector3i16 { x: 16384, y: -16384, z: 0 }.dequantize();
    assert_eq!(f32::from_bits(v.x), 1.0);
    assert_eq!(f32::from_bits(v.y), -1.0);
    assert_eq!(f32::from_bits(v.z), 0.0);
    assert_eq!(v, Vector3 { x: 0x3F80_0000, y: 0xBF80_0000, z: 0 });
}

#[test]
fn dequantize_matches_float_division_everywhere() {
    for q in i16::MIN..=i16::MAX {
        let expected = (q as f32 / 16384.0_f32).to_bits();
        assert_eq!(dequantize(q), expected, "q = {}", q);
    }
}

#[test]
fn dequantize_extremes() {
    assert_eq!(f32::from_bits(dequantize(i16::MIN)), -2.0);
    assert_eq!(f32::from_bits(dequantize(1)), 1.0 / 16384.0);
    assert_eq!(dequantize(0), 0);
}

#[test]
fn truncate_drops_last_component() {
    let v = Vector4 { x: 1, y: 2, z: 3, w: 4 }.truncate();
    assert_eq!(v, Vector3 { x: 1, y: 2, z: 3 });
    let q = Vector4i16 { x: -1, y: 2, z: -3, w: 4 }.truncate();
    assert_eq!(q, Vector3i16 { x: -1, y: 2, z: -3 });
}

#[test]
fn span_positions_and_one_eight_byte_stream() {
    assert_eq!(mesh_payload_span(0x01 | 0x04, 10, 7), 216);
}

#[test]
fn span_even_index_count_has_no_padding() {
    assert_eq!(mesh_payload_span(0, 10, 8), 16);
    assert_eq!(mesh_payload_span(0, 0, 0), 0);
}

#[test]
fn span_every_stream() {
    let all = 0x01 | 0x02 | 0x08 | 0x04 | 0x40 | 0x1000 | 0x10 | 0x4000 | 0x8000 | 0x20;
    assert_eq!(mesh_payload_span(all, 1, 1), 4 + 12 + 12 + 4 + 8 + 4 + 32 + 8 + 8 + 8 + 12);
    assert_eq!(mesh_payload_span(0x2000 | 0x100, 5, 0), 0);
}

#[test]
fn clean_string_stops_at_nul() {
    let mut field = vec![0u8; 16];
    field[..5].copy_from_slice(b"hello");
    field[6] = b'x';
    assert_eq!(clean_string(&field), "hello");
    assert_eq!(clean_string(b"abc"), "abc");
    assert_eq!(clean_string(b""), "");
}

#[test]
fn clean_string_rejects_bad_utf8() {
    assert_eq!(try_clean_string(&[0xff, 0xfe, 0]), None);
    assert_eq!(try_clean_string(&[0xff, 0]).is_none(), true);
    assert_eq!(try_clean_string("né\0zz".as_bytes()), Some("né".to_string()));
}

#[test]
fn clean_path_turns_backslashes() {
    assert_eq!(clean_path(b"a\\b\\c.dds\0junk"), "a/b/c.dds");
    assert_eq!(clean_path(&[0x41, 0xe9, 0]), "A\u{e9}");
}

fn stored_zlib(payload: &[u8]) -> Vec<u8> {
    let mut out = vec![0x78, 0x01, 0x01];
    let n = payload.len() as u16;
    out.extend_from_slice(&n.to_le_bytes());
    out.extend_from_slice(&(!n).to_le_bytes());
    out.extend_from_slice(payload);
    let (mut a, mut b) = (1u32, 0u32);
    for &c in payload {
        a = (a + c as u32) % 65521;
        b = (b + a) % 65521;
    }
    out.extend_from_slice(&((b << 16) | a).to_be_bytes());
    out
}

#[test]
fn zlib_chunks_join_in_order() {
    let chunks = vec![stored_zlib(b"hello "), stored_zlib(b"world")];
    assert_eq!(decode_zlib_data(&chunks), Some(b"hello world".to_vec()));
    assert_eq!(decode_zlib_data(&Vec::new()), Some(Vec::new()));
}

#[test]
fn zlib_corrupt_chunk_fails() {
    assert_eq!(decode_zlib_data(&vec![stored_zlib(b"ok"), vec![1, 2, 3]]), None);
}
