use soi_tools::error::ConvertError;
use soi_tools::model::{
    StreamingXNGMesh, XNGBone, XNGDeltaBlock, XNGHeader, XNGHeaderArgs, XNGLod, XNGMeshName,
};
use soi_tools::motion::{MotionPackString, StreamingMotionPackHeader};
use soi_tools::vector::Vector4;

fn mesh(vertex_type: u32, num_vertices: u16, num_face_indices: u16, streaming: u8) -> StreamingXNGMesh {
    StreamingXNGMesh {
        surface_index: 2,
        vertex_type,
        compression_stuff: None,
        num_texture_coordinate_sets: 1,
        compressed: 1,
        streaming,
        unk: 4,
        unk2: 5,
        unk3: 6,
        texture_coordinate_sets: vec![0x3F80_0000],
        num_vertices,
        num_face_indices,
        delta_block: None,
    }
}

fn header(lods: Vec<XNGLod>) -> XNGHeader {
    XNGHeader {
        version: 9,
        num_bones: 1,
        bones: vec![XNGBone {
            name: vec![b'b'; 128],
            matrix: (0..16).collect(),
            bounding_box_center: vec![1, 2, 3],
            bounding_box_half: vec![4, 5, 6],
            bounding_box_radius: 7,
            parent_index: 0xFFFF_FFFF,
        }],
        num_mesh_names: 1,
        mesh_names: vec![XNGMeshName { name: vec![b'm'; 64] }],
        num_lod: lods.len() as u8,
        skin_animates_flag: 1,
        has_weight: 0,
        unused: 0,
        lods,
    }
}

fn be32(v: u32) -> Vec<u8> {
    v.to_be_bytes().to_vec()
}

fn header_fields(h: &XNGHeader, magic: &[u8]) -> Vec<u8> {
    let mut out = magic.to_vec();
    out.extend(be32(h.version as u32));
    out.extend(be32(h.num_bones));
    for b in &h.bones {
        out.extend_from_slice(&b.name);
        for v in b.matrix.iter().chain(&b.bounding_box_center).chain(&b.bounding_box_half) {
            out.extend(be32(*v));
        }
        out.extend(be32(b.bounding_box_radius));
        out.extend(be32(b.parent_index));
    }
    out.extend(be32(h.num_mesh_names as u32));
    for n in &h.mesh_names {
        out.extend_from_slice(&n.name);
    }
    out.extend_from_slice(&[h.num_lod, h.skin_animates_flag, h.has_weight, h.unused]);
    out
}

fn mesh_fields(m: &StreamingXNGMesh, streaming: u8) -> Vec<u8> {
    let mut out = be32(m.surface_index);
    out.extend(be32(m.vertex_type));
    if let Some(c) = &m.compression_stuff {
        for v in c {
            out.extend(be32(*v));
        }
    }
    out.extend_from_slice(&[m.num_texture_coordinate_sets, m.compressed, streaming, m.unk, m.unk2, m.unk3]);
    for v in &m.texture_coordinate_sets {
        out.extend(be32(*v));
    }
    out.extend_from_slice(&m.num_vertices.to_be_bytes());
    out.extend_from_slice(&m.num_face_indices.to_be_bytes());
    out
}

#[test]
fn mesh_payloads_are_copied_in_order() {
    let a = mesh(0x01 | 0x04, 10, 7, 1);
    let b = mesh(0x02, 1, 2, 1);
    let c = mesh(0x20, 2, 0, 1);
    let h = header(vec![
        XNGLod { auto_lod_value: 0x4120_0000, num_meshes: 2, meshes: vec![a.clone(), b.clone()] },
        XNGLod { auto_lod_value: 0, num_meshes: 1, meshes: vec![c.clone()] },
    ]);
    let data: Vec<u8> = (0..300).map(|i| (i % 251) as u8).collect();
    let out = h.write(&XNGHeaderArgs { streaming_data: data.clone() }).unwrap();
    let mut expected = header_fields(&h, b"xng\0");
    expected.extend(be32(0x4120_0000));
    expected.extend(be32(2));
    expected.extend(mesh_fields(&a, 0));
    expected.extend_from_slice(&data[0..216]);
    expected.extend(mesh_fields(&b, 0));
    expected.extend_from_slice(&data[216..232]);
    expected.extend(be32(0));
    expected.extend(be32(1));
    expected.extend(mesh_fields(&c, 0));
    expected.extend_from_slice(&data[232..256]);
    assert_eq!(out, expected);
}

#[test]
fn non_streaming_mesh_fails_fast() {
    let h = header(vec![XNGLod {
        auto_lod_value: 0,
        num_meshes: 2,
        meshes: vec![mesh(0x01, 1, 0, 1), mesh(0x01, 1, 0, 0)],
    }]);
    let args = XNGHeaderArgs { streaming_data: vec![0; 1000] };
    assert_eq!(h.write(&args), Err(ConvertError::Format));
    let short = XNGHeaderArgs { streaming_data: Vec::new() };
    assert_eq!(h.write(&short), Err(ConvertError::Format));
}

#[test]
fn mesh_spans_past_payload_fail() {
    let h = header(vec![XNGLod { auto_lod_value: 0, num_meshes: 1, meshes: vec![mesh(0x01, 10, 7, 1)] }]);
    assert_eq!(h.write(&XNGHeaderArgs { streaming_data: vec![0; 135] }), Err(ConvertError::BufferExhaustion));
    assert!(h.write(&XNGHeaderArgs { streaming_data: vec![0; 136] }).is_ok());
}

#[test]
fn compression_and_delta_blocks_are_written() {
    let mut m = mesh(0x2000 | 0x100, 1, 0, 1);
    m.compression_stuff = Some((10..18).collect());
    let d = XNGDeltaBlock {
        num_channels: 1,
        controller_name: vec![b'c'; 64],
        num_vertices: 1,
        xyz_bits: 3,
        force_unique: 1,
        unk: 0,
        unk2: 0,
        delta_count: 1,
        delta_positions: vec![Vector4 { x: 1, y: 2, z: 3, w: 4 }],
        delta_normals: vec![Vector4 { x: 5, y: 6, z: 7, w: 8 }],
        delta_indices: vec![-1],
        positions: vec![Vector4 { x: 9, y: 9, z: 9, w: 9 }],
        normals: vec![Vector4 { x: 0, y: 0, z: 0, w: 0 }],
    };
    m.delta_block = Some(d.clone());
    let h = header(vec![XNGLod { auto_lod_value: 0, num_meshes: 1, meshes: vec![m.clone()] }]);
    let out = h.write(&XNGHeaderArgs { streaming_data: Vec::new() }).unwrap();
    let mut delta = be32(1);
    delta.extend(vec![b'c'; 64]);
    delta.extend(be32(1));
    delta.extend(be32(3));
    delta.push(1);
    delta.extend(be32(0));
    delta.extend(be32(0));
    delta.extend(be32(1));
    for v in [1u32, 2, 3, 4, 5, 6, 7, 8, 0xFFFF_FFFF, 9, 9, 9, 9, 0, 0, 0, 0] {
        delta.extend(be32(v));
    }
    let mut expected = header_fields(&h, b"xng\0");
    expected.extend(be32(0));
    expected.extend(be32(1));
    expected.extend(mesh_fields(&m, 0));
    expected.extend(delta.clone());
    assert_eq!(out, expected);

    let mut index = header_fields(&h, b"xgs\0");
    index.extend(be32(0));
    index.extend(be32(1));
    index.extend(mesh_fields(&m, 1));
    index.extend(delta);
    let (parsed, end) = XNGHeader::parse(&index, 0).unwrap();
    assert_eq!(end, index.len());
    assert_eq!(parsed.lods.len(), 1);
    let pm = &parsed.lods[0].meshes[0];
    assert_eq!(pm.compression_stuff, m.compression_stuff);
    assert_eq!(pm.streaming, 1);
    assert_eq!(pm.delta_block.as_ref().unwrap().delta_indices, vec![-1]);
    assert_eq!(parsed.write(&XNGHeaderArgs { streaming_data: Vec::new() }).unwrap(), out);
    assert!(XNGHeader::parse(&out, 0).is_none());
}

#[test]
fn motion_pack_header_then_payload() {
    let h = StreamingMotionPackHeader {
        version: -8,
        motion_type: 1,
        frame_count: 30,
        object_count: 1,
        bone_targets: vec![MotionPackString { len: 3, bone_name: b"hip".to_vec() }],
        duration: 0x3F80_0000,
        rotation_type: 1,
        position_type: 2,
        num_positions: 3,
        num_rotations: 4,
        num_camera_infos: 0,
        padding: 0,
        unk_bpb_size: 2,
        unk_bpb: vec![9, 9],
    };
    let out = h.write(&[0xAB, 0xCD]);
    let mut expected = be32(0xFFFF_FFF8);
    for v in [1u32, 30, 1, 3] {
        expected.extend(be32(v));
    }
    expected.extend_from_slice(b"hip");
    for v in [0x3F80_0000u32, 1, 2, 3, 4, 0, 0] {
        expected.extend(be32(v));
    }
    let header_len = expected.len();
    expected.extend_from_slice(&[0xAB, 0xCD]);
    assert_eq!(out, expected);

    let mut index = expected[..header_len].to_vec();
    index.extend(be32(2));
    index.extend_from_slice(&[9, 9]);
    let (parsed, end) = StreamingMotionPackHeader::parse(&index, 0).unwrap();
    assert_eq!(end, index.len());
    assert_eq!(parsed.unk_bpb, vec![9, 9]);
    assert_eq!(parsed.bone_targets[0].bone_name, b"hip".to_vec());
    assert_eq!(parsed.write(&[]), expected[..header_len].to_vec());
}
