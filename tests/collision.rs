use soi_tools::collision::{
    object_layout, CollisionModel, CollisionModelArgs, CollisionType, LeafPlane,
    SoultreeCollisionObject, StreamingHeirarchyEntry, TreeFace,
};
use soi_tools::error::ConvertError;
use soi_tools::vector::Vector3;

fn zero3() -> Vector3 {
    Vector3 { x: 0, y: 0, z: 0 }
}

fn object(vertex_count: u32, faces: u32, leaves: u32, quantized: i32, load_normals: i32) -> SoultreeCollisionObject {
    SoultreeCollisionObject {
        temp_cmt: 7,
        obb_data: (1..=12).collect(),
        reverse_collision_mode: -1,
        vertex_count,
        tree_face_count: faces,
        tree_face_leaf_count: leaves,
        quantized,
        load_normals,
        top_tree_face: TreeFace { volume: 0, vectors: [zero3(), zero3()], type_indices: [0, 0] },
    }
}

fn model(collision_type: CollisionType, object: SoultreeCollisionObject) -> CollisionModel {
    CollisionModel {
        col_type: *b"GOL ",
        version: 3,
        collision_type,
        object,
        object_count: 0,
        reverse_collision_mode: 0,
        objects: Vec::new(),
        plane_count: 0,
        half: zero3(),
    }
}

fn be32(v: u32) -> Vec<u8> {
    v.to_be_bytes().to_vec()
}

fn prefix(standard_tag: u32) -> Vec<u8> {
    let mut out = vec![0x00, 0x00, 0x04, 0xD2];
    out.extend_from_slice(b"GOL ");
    out.extend(be32(3));
    out.extend(be32(standard_tag));
    out
}

fn object_header(o: &SoultreeCollisionObject) -> Vec<u8> {
    let mut out = be32(o.temp_cmt as u32);
    for v in &o.obb_data {
        out.extend(be32(*v));
    }
    out.extend(be32(o.reverse_collision_mode as u32));
    out.extend(be32(o.vertex_count));
    out.extend(be32(o.tree_face_count));
    out.extend(be32(o.tree_face_leaf_count));
    out.extend(be32(o.quantized as u32));
    out
}

fn counting(n: usize, from: u8) -> Vec<u8> {
    (0..n).map(|i| from.wrapping_add(i as u8)).collect()
}

/// A 20-byte leaf of the streaming layout.
fn stream_leaf(vertices: [i16; 3], normal: [i16; 3]) -> Vec<u8> {
    let mut out = Vec::new();
    for v in vertices {
        out.extend_from_slice(&v.to_be_bytes());
    }
    out.extend_from_slice(&[0xAA; 6]);
    for v in normal {
        out.extend_from_slice(&v.to_be_bytes());
    }
    out.extend_from_slice(&[0xBB; 2]);
    out
}

fn plane_constant(p: &LeafPlane) -> u32 {
    let v = [f32::from_bits(p.vertex.x), f32::from_bits(p.vertex.y), f32::from_bits(p.vertex.z)];
    let n = [f32::from_bits(p.normal.x), f32::from_bits(p.normal.y), f32::from_bits(p.normal.z)];
    (-1.0_f32 * (v[0] * n[0] + v[1] * n[1] + v[2] * n[2])).to_bits()
}

fn planes_of(m: &CollisionModel, args: &CollisionModelArgs) -> Vec<Vec<u32>> {
    m.leaf_planes(args)
        .unwrap()
        .iter()
        .map(|ps| ps.iter().map(plane_constant).collect())
        .collect()
}

#[test]
fn float_soul_tree_rebuilds() {
    let o = object(2, 1, 1, 0, 0);
    let m = model(CollisionType::StreamingSoultree, o.clone());
    let mut data = Vec::new();
    data.extend(be32(0x3F80_0000));
    data.extend(be32(0));
    data.extend(be32(0));
    data.extend(be32(0x4000_0000));
    data.extend(be32(0));
    data.extend(be32(0));
    let face = counting(36, 100);
    data.extend(face.clone());
    data.extend(stream_leaf([1, 0, 0], [16384, 0, 0]));
    assert_eq!(data.len(), 80);
    let args = CollisionModelArgs { ror: false, streaming_data: data.clone() };
    let planes = m.leaf_planes(&args).unwrap();
    assert_eq!(planes.len(), 1);
    assert_eq!(
        planes[0][0],
        LeafPlane {
            vertex: Vector3 { x: 0x4000_0000, y: 0, z: 0 },
            normal: Vector3 { x: 0x3F80_0000, y: 0, z: 0 },
        }
    );
    let out = m.write(&args, &planes_of(&m, &args)).unwrap();
    let mut expected = prefix(0);
    expected.extend(object_header(&o));
    expected.extend_from_slice(&data[0..24]);
    expected.extend(be32(0));
    expected.extend_from_slice(&face[0..4]);
    expected.extend_from_slice(&face[12..36]);
    expected.extend_from_slice(&face[8..12]);
    expected.extend(be32((-2.0_f32).to_bits()));
    expected.extend(be32(0x3F80_0000));
    expected.extend(be32(0));
    expected.extend(be32(0));
    expected.extend_from_slice(&[0, 1, 0, 0, 0, 0]);
    assert_eq!(out, expected);
}

#[test]
fn plane_constant_of_unit_vertex_and_normal() {
    let o = object(1, 0, 1, 0, 0);
    let m = model(CollisionType::StreamingSoultree, o);
    let mut data = Vec::new();
    data.extend(be32(0x3F80_0000));
    data.extend(be32(0));
    data.extend(be32(0));
    data.extend(stream_leaf([0, 0, 0], [16384, 0, 0]));
    let args = CollisionModelArgs { ror: false, streaming_data: data };
    let planes = m.leaf_planes(&args).unwrap();
    assert_eq!(f32::from_bits(plane_constant(&planes[0][0])), -1.0);
    let out = m.write(&args, &planes_of(&m, &args)).unwrap();
    let leaf = &out[out.len() - 22..];
    assert_eq!(f32::from_bits(u32::from_be_bytes([leaf[0], leaf[1], leaf[2], leaf[3]])), -1.0);
}

#[test]
fn plane_constant_of_origin_vertex_is_zero() {
    let o = object(1, 0, 1, 1, 0);
    let m = model(CollisionType::StreamingSoultree, o);
    let mut data = vec![0u8; 6];
    data.extend(stream_leaf([0, 0, 0], [3, -7, 16384]));
    let args = CollisionModelArgs { ror: false, streaming_data: data };
    let planes = m.leaf_planes(&args).unwrap();
    assert_eq!(planes[0][0].vertex, Vector3 { x: 0, y: 0, z: 0 });
    assert_eq!(f32::from_bits(plane_constant(&planes[0][0])), 0.0);
}

#[test]
fn quantized_soul_tree_with_normals() {
    let o = object(3, 0, 0, 1, 1);
    let m = model(CollisionType::StreamingSoultree, o.clone());
    let data = counting(36, 1);
    let args = CollisionModelArgs { ror: false, streaming_data: data.clone() };
    let out = m.write(&args, &vec![Vec::new()]).unwrap();
    let mut expected = prefix(0);
    expected.extend(object_header(&o));
    expected.extend_from_slice(&data[0..18]);
    expected.extend(be32(1));
    expected.extend_from_slice(&data[18..36]);
    assert_eq!(out, expected);
}

#[test]
fn alternate_layout_odd_vertex_count_skips_padding() {
    let o = object(1, 1, 1, 0, 1);
    let m = model(CollisionType::StreamingSoultree, o.clone());
    let layout = object_layout(&o, true);
    assert_eq!(layout.padding, 16);
    assert_eq!(layout.total(), 16 + 16 + 16 + 64 + 32);
    let data = counting(144, 0);
    let args = CollisionModelArgs { ror: true, streaming_data: data.clone() };
    assert_eq!(m.leaf_planes(&args).unwrap().len(), 0);
    let out = m.write(&args, &Vec::new()).unwrap();
    let mut expected = prefix(0);
    expected.extend(object_header(&o));
    expected.extend_from_slice(&data[0..12]);
    expected.extend(be32(1));
    expected.extend_from_slice(&data[16..28]);
    let face = &data[48..112];
    expected.extend_from_slice(&face[36..40]);
    expected.extend_from_slice(&face[0..12]);
    expected.extend_from_slice(&face[16..28]);
    expected.extend_from_slice(&face[32..36]);
    let leaf = &data[112..144];
    expected.extend_from_slice(&leaf[16..20]);
    expected.extend_from_slice(&leaf[0..12]);
    expected.extend_from_slice(&leaf[20..26]);
    assert_eq!(out, expected);
}

#[test]
fn alternate_layout_quantized_even_count() {
    let o = object(2, 0, 0, 1, 0);
    let m = model(CollisionType::StreamingSoultree, o.clone());
    assert_eq!(object_layout(&o, true).padding, 0);
    let data = counting(16, 9);
    let args = CollisionModelArgs { ror: true, streaming_data: data.clone() };
    let out = m.write(&args, &Vec::new()).unwrap();
    let mut expected = prefix(0);
    expected.extend(object_header(&o));
    expected.extend_from_slice(&data[0..6]);
    expected.extend_from_slice(&data[8..14]);
    expected.extend(be32(0));
    assert_eq!(out, expected);
}

#[test]
fn walk_must_consume_payload_exactly() {
    let o = object(2, 0, 0, 0, 1);
    let m = model(CollisionType::StreamingSoultree, o);
    for len in [47usize, 49, 0] {
        let args = CollisionModelArgs { ror: false, streaming_data: vec![0; len] };
        assert_eq!(m.write(&args, &vec![Vec::new()]), Err(ConvertError::BufferExhaustion));
        assert_eq!(m.leaf_planes(&args), Err(ConvertError::BufferExhaustion));
    }
    let args = CollisionModelArgs { ror: false, streaming_data: vec![0; 48] };
    assert!(m.write(&args, &vec![Vec::new()]).is_ok());
}

#[test]
fn leaf_naming_missing_vertex_is_refused() {
    let o = object(1, 0, 1, 0, 0);
    let m = model(CollisionType::StreamingSoultree, o);
    let mut data = vec![0u8; 12];
    data.extend(stream_leaf([1, 0, 0], [0, 0, 0]));
    let args = CollisionModelArgs { ror: false, streaming_data: data.clone() };
    assert_eq!(m.leaf_planes(&args), Err(ConvertError::LeafVertexOutOfRange));
    assert_eq!(m.write(&args, &vec![vec![0]]), Err(ConvertError::LeafVertexOutOfRange));
    let mut negative = vec![0u8; 12];
    negative.extend(stream_leaf([-1, 0, 0], [0, 0, 0]));
    let args = CollisionModelArgs { ror: false, streaming_data: negative };
    assert_eq!(m.write(&args, &vec![vec![0]]), Err(ConvertError::LeafVertexOutOfRange));
}

#[test]
fn standard_kinds_are_refused() {
    for t in [
        CollisionType::Soultree,
        CollisionType::SoultreeHeirarchy,
        CollisionType::Rays,
        CollisionType::DynamicRays,
        CollisionType::RadiusedLine,
        CollisionType::Sphere,
        CollisionType::Box,
        CollisionType::Ecosystem,
        CollisionType::FinitePlane,
    ] {
        let m = model(t, object(0, 0, 0, 0, 0));
        let args = CollisionModelArgs { ror: false, streaming_data: Vec::new() };
        assert_eq!(m.write(&args, &Vec::new()), Err(ConvertError::Format));
        assert_eq!(m.leaf_planes(&args), Err(ConvertError::Format));
    }
}

#[test]
fn finite_planes_pass_through() {
    let mut m = model(CollisionType::StreamingFinitePlane, object(0, 0, 0, 0, 0));
    m.plane_count = 2;
    m.half = Vector3 { x: 1, y: 2, z: 3 };
    let data = counting(120, 5);
    let args = CollisionModelArgs { ror: false, streaming_data: data.clone() };
    let out = m.write(&args, &Vec::new()).unwrap();
    let mut expected = prefix(8);
    expected.extend(be32(2));
    expected.extend(be32(1));
    expected.extend(be32(2));
    expected.extend(be32(3));
    expected.extend(data);
    assert_eq!(out, expected);
}

#[test]
fn hierarchy_shares_one_cursor() {
    let a = object(1, 0, 0, 1, 0);
    let b = object(2, 0, 1, 1, 0);
    let mut m = model(CollisionType::StreamingHeirarchy, object(0, 0, 0, 0, 0));
    m.object_count = 2;
    m.reverse_collision_mode = 1;
    m.objects = vec![
        StreamingHeirarchyEntry { object_id: 10, object: a.clone() },
        StreamingHeirarchyEntry { object_id: 11, object: b.clone() },
    ];
    let mut data = counting(6, 1);
    let mut second = vec![0x40, 0x00, 0, 0, 0, 0, 0, 0, 0, 0, 0, 0];
    data.append(&mut second);
    data.extend(stream_leaf([0, 1, 0], [0, 16384, 0]));
    let args = CollisionModelArgs { ror: false, streaming_data: data.clone() };
    let planes = m.leaf_planes(&args).unwrap();
    assert_eq!(planes.len(), 2);
    assert_eq!(planes[0].len(), 0);
    assert_eq!(planes[1][0].vertex, Vector3 { x: 0x3F80_0000, y: 0, z: 0 });
    assert_eq!(planes[1][0].normal, Vector3 { x: 0, y: 0x3F80_0000, z: 0 });
    let out = m.write(&args, &planes_of(&m, &args)).unwrap();
    let mut expected = prefix(1);
    expected.extend(be32(2));
    expected.extend(be32(1));
    expected.extend(object_header(&a));
    expected.extend_from_slice(&data[0..6]);
    expected.extend(be32(0));
    expected.extend(object_header(&b));
    expected.extend_from_slice(&data[6..18]);
    expected.extend(be32(0));
    expected.extend(be32(0x8000_0000));
    expected.extend(be32(0));
    expected.extend(be32(0x3F80_0000));
    expected.extend(be32(0));
    expected.extend_from_slice(&[0, 0, 0, 1, 0, 0]);
    assert_eq!(out, expected);
    let short = CollisionModelArgs { ror: false, streaming_data: data[..37].to_vec() };
    assert_eq!(m.write(&short, &planes_of(&m, &args)), Err(ConvertError::BufferExhaustion));
}

#[test]
fn collision_type_codes_and_names() {
    for code in 0..12 {
        let t = CollisionType::from_code(code).unwrap();
        assert_eq!(t.code(), code);
    }
    assert_eq!(CollisionType::from_code(12), None);
    assert_eq!(CollisionType::from_code(-1), None);
    assert_eq!(CollisionType::StreamingHeirarchy.name(), "StreamingHeirarchy");
    assert_eq!(CollisionType::Box.name(), "Box");
}

#[test]
fn collision_header_parses() {
    let o = object(4, 5, 6, 1, 0);
    let mut bytes = vec![0x00, 0x00, 0x04, 0xD2];
    bytes.extend_from_slice(b"GOL ");
    bytes.extend(be32(3));
    bytes.extend(be32(9));
    bytes.extend(object_header(&o));
    bytes.extend(be32(0));
    bytes.extend(vec![0u8; 32]);
    bytes.push(0xEE);
    let (m, end) = CollisionModel::parse(&bytes, 0).unwrap();
    assert_eq!(end, bytes.len() - 1);
    assert_eq!(m.collision_type, CollisionType::StreamingSoultree);
    assert_eq!(m.col_type, *b"GOL ");
    assert_eq!(m.version, 3);
    assert_eq!(m.object.vertex_count, 4);
    assert_eq!(m.object.tree_face_count, 5);
    assert_eq!(m.object.tree_face_leaf_count, 6);
    assert_eq!(m.object.quantized, 1);
    assert_eq!(m.object.obb_data, (1..=12).collect::<Vec<u32>>());
    let mut bad = bytes.clone();
    bad[3] = 0xD3;
    assert!(CollisionModel::parse(&bad, 0).is_none());
    assert!(CollisionModel::parse(&bytes[..100], 0).is_none());
    let mut unknown = bytes.clone();
    unknown[15] = 12;
    assert!(CollisionModel::parse(&unknown, 0).is_none());
}

#[test]
fn plane_table_must_match_leaves() {
    let o = object(1, 0, 2, 0, 0);
    let m = model(CollisionType::StreamingSoultree, o);
    let mut data = vec![0u8; 12];
    data.extend(stream_leaf([0, 0, 0], [16384, 0, 0]));
    data.extend(stream_leaf([0, 0, 0], [0, 16384, 0]));
    let args = CollisionModelArgs { ror: false, streaming_data: data };
    assert_eq!(m.write(&args, &vec![vec![0]]), Err(ConvertError::PlaneCountMismatch));
    assert_eq!(m.write(&args, &Vec::new()), Err(ConvertError::PlaneCountMismatch));
    assert!(m.write(&args, &vec![vec![0, 0]]).is_ok());
    let ror = CollisionModelArgs { ror: true, streaming_data: vec![0u8; 16 + 16 + 64] };
    assert!(m.write(&ror, &Vec::new()).is_ok());
}
