//! Renderable models: the mesh header read from the scene index, and the
//! re-encoder that joins it with its streaming payload into a standard mesh file.
use vstd::prelude::*;

use crate::bytes::{be_u32, lemma_subrange_split, i32_be, push_i32, push_range, push_u16, push_u32, push_u32s, u16_be, u32_be, u32s_be};
use crate::error::{bytes_result, ConvertError};
use crate::vector::{push_vector4, vector4_bytes, Vector4};
use crate::reader::{take_vector4, take_bytes, take_i32, take_u16, take_u32, take_u32s, take_u8};

verus! {

/// The tag that the standard mesh file opens with.
pub open spec fn written_model_magic() -> Seq<u8> {
    seq![0x78u8, 0x6eu8, 0x67u8, 0x00u8]
}

/// A 64-byte NUL-padded mesh name.
#[derive(Clone, Debug)]
pub struct XNGMeshName {
    pub name: Vec<u8>,
}

/// A bone: a 128-byte name, a 4x4 matrix, a bounding box and sphere, and the
/// index of its parent.
#[derive(Clone, Debug)]
pub struct XNGBone {
    pub name: Vec<u8>,
    pub matrix: Vec<u32>,
    pub bounding_box_center: Vec<u32>,
    pub bounding_box_half: Vec<u32>,
    pub bounding_box_radius: u32,
    pub parent_index: u32,
}

/// The morph data of a mesh, kept in the header stream.
#[derive(Clone, Debug)]
pub struct XNGDeltaBlock {
    pub num_channels: u32,
    pub controller_name: Vec<u8>,
    pub num_vertices: u32,
    pub xyz_bits: u32,
    pub force_unique: u8,
    pub unk: u32,
    pub unk2: u32,
    pub delta_count: u32,
    pub delta_positions: Vec<Vector4>,
    pub delta_normals: Vec<Vector4>,
    pub delta_indices: Vec<i32>,
    pub positions: Vec<Vector4>,
    pub normals: Vec<Vector4>,
}

/// A mesh header. Its vertex and index data are in the streaming payload;
/// `vertex_type` says which per-vertex streams are there.
#[derive(Clone, Debug)]
pub struct StreamingXNGMesh {
    pub surface_index: u32,
    pub vertex_type: u32,
    pub compression_stuff: Option<Vec<u32>>,
    pub num_texture_coordinate_sets: u8,
    pub compressed: u8,
    pub streaming: u8,
    pub unk: u8,
    pub unk2: u8,
    pub unk3: u8,
    pub texture_coordinate_sets: Vec<u32>,
    pub num_vertices: u16,
    pub num_face_indices: u16,
    pub delta_block: Option<XNGDeltaBlock>,
}

/// A level of detail and its meshes.
#[derive(Clone, Debug)]
pub struct XNGLod {
    pub auto_lod_value: u32,
    pub num_meshes: u32,
    pub meshes: Vec<StreamingXNGMesh>,
}

/// The header of a renderable model.
#[derive(Clone, Debug)]
pub struct XNGHeader {
    pub version: i32,
    pub num_bones: u32,
    pub bones: Vec<XNGBone>,
    pub num_mesh_names: i32,
    pub mesh_names: Vec<XNGMeshName>,
    pub num_lod: u8,
    pub skin_animates_flag: u8,
    pub has_weight: u8,
    pub unused: u8,
    pub lods: Vec<XNGLod>,
}

/// What the re-encoder needs beside the header: the model's payload.
#[derive(Clone, Debug)]
pub struct XNGHeaderArgs {
    pub streaming_data: Vec<u8>,
}

/// The number of per-vertex streams that a payload may hold.
pub const VERTEX_STREAM_COUNT: usize = 10;

/// Per-vertex stream `i` of a payload, in payload order: the `vertex_type`
/// flag that makes it present, and its bytes per vertex.
pub open spec fn vertex_stream(i: int) -> (u32, nat) {
    if i == 0 {
        (0x01, 12)
    } else if i == 1 {
        (0x02, 12)
    } else if i == 2 {
        (0x08, 4)
    } else if i == 3 {
        (0x04, 8)
    } else if i == 4 {
        (0x40, 4)
    } else if i == 5 {
        (0x1000, 32)
    } else if i == 6 {
        (0x10, 8)
    } else if i == 7 {
        (0x4000, 8)
    } else if i == 8 {
        (0x8000, 8)
    } else {
        (0x20, 12)
    }
}

/// The bytes that the first `k` streams take for `n` vertices: a stream takes
/// `n` times its stride when `vertex_type` sets its flag, else nothing.
pub open spec fn stream_bytes(vertex_type: u32, n: nat, k: nat) -> nat
    decreases k,
{
    if k == 0 {
        0
    } else {
        let (flag, stride) = vertex_stream(k - 1);
        stream_bytes(vertex_type, n, (k - 1) as nat) + if vertex_type & flag == flag {
            n * stride
        } else {
            0
        }
    }
}

/// The payload bytes of one mesh: its 16-bit face indices, padded to an even
/// count, then each vertex stream that `vertex_type` sets.
pub open spec fn payload_span(vertex_type: u32, num_vertices: u16, num_face_indices: u16) -> nat {
    (num_face_indices * 2 + (if num_face_indices % 2 == 1 {
        2nat
    } else {
        0nat
    }) + stream_bytes(vertex_type, num_vertices as nat, VERTEX_STREAM_COUNT as nat)) as nat
}

pub open spec fn mesh_span(m: StreamingXNGMesh) -> nat {
    payload_span(m.vertex_type, m.num_vertices, m.num_face_indices)
}

/// Per-vertex stream `i`: its flag and its bytes per vertex.
pub fn vertex_stream_of(i: usize) -> (r: (u32, u64))
    requires
        i < VERTEX_STREAM_COUNT,
    ensures
        r.0 == vertex_stream(i as int).0,
        r.1 == vertex_stream(i as int).1,
        r.1 <= 32,
{
    if i == 0 {
        (0x01, 12)
    } else if i == 1 {
        (0x02, 12)
    } else if i == 2 {
        (0x08, 4)
    } else if i == 3 {
        (0x04, 8)
    } else if i == 4 {
        (0x40, 4)
    } else if i == 5 {
        (0x1000, 32)
    } else if i == 6 {
        (0x10, 8)
    } else if i == 7 {
        (0x4000, 8)
    } else if i == 8 {
        (0x8000, 8)
    } else {
        (0x20, 12)
    }
}

/// The payload bytes of one mesh.
pub fn mesh_payload_span(vertex_type: u32, num_vertices: u16, num_face_indices: u16) -> (r: u64)
    ensures
        r == payload_span(vertex_type, num_vertices, num_face_indices),
        r <= 0x200_0000,
{
    let nv = num_vertices as u64;
    let mut span: u64 = num_face_indices as u64 * 2;
    if num_face_indices % 2 == 1 {
        span = span + 2;
    }
    let faces = span;
    let mut i: usize = 0;
    while i < VERTEX_STREAM_COUNT
        invariant
            i <= VERTEX_STREAM_COUNT,
            nv == num_vertices,
            faces <= 0x20000,
            span == faces + stream_bytes(vertex_type, nv as nat, i as nat),
            span <= faces + i * 0x20_0000,
        decreases VERTEX_STREAM_COUNT - i,
    {
        let (flag, stride) = vertex_stream_of(i);
        if vertex_type & flag == flag {
            assert(nv * stride <= 0x20_0000) by (nonlinear_arith)
                requires
                    nv <= 0xffff,
                    stride <= 32,
            ;
            span = span + nv * stride;
        }
        i = i + 1;
    }
    span
}

pub open spec fn bone_bytes(b: XNGBone) -> Seq<u8> {
    b.name@ + u32s_be(b.matrix@) + u32s_be(b.bounding_box_center@) + u32s_be(
        b.bounding_box_half@,
    ) + u32_be(b.bounding_box_radius) + u32_be(b.parent_index)
}

pub open spec fn bones_bytes(bs: Seq<XNGBone>) -> Seq<u8>
    decreases bs.len(),
{
    if bs.len() == 0 {
        seq![]
    } else {
        bones_bytes(bs.drop_last()) + bone_bytes(bs.last())
    }
}

pub open spec fn names_bytes(ns: Seq<XNGMeshName>) -> Seq<u8>
    decreases ns.len(),
{
    if ns.len() == 0 {
        seq![]
    } else {
        names_bytes(ns.drop_last()) + ns.last().name@
    }
}

pub open spec fn vector4s_bytes(vs: Seq<Vector4>) -> Seq<u8>
    decreases vs.len(),
{
    if vs.len() == 0 {
        seq![]
    } else {
        vector4s_bytes(vs.drop_last()) + vector4_bytes(vs.last())
    }
}

pub open spec fn i32s_bytes(vs: Seq<i32>) -> Seq<u8>
    decreases vs.len(),
{
    if vs.len() == 0 {
        seq![]
    } else {
        i32s_bytes(vs.drop_last()) + i32_be(vs.last())
    }
}

pub open spec fn delta_block_bytes(d: XNGDeltaBlock) -> Seq<u8> {
    u32_be(d.num_channels) + d.controller_name@ + u32_be(d.num_vertices) + u32_be(d.xyz_bits)
        + seq![d.force_unique] + u32_be(d.unk) + u32_be(d.unk2) + u32_be(d.delta_count)
        + vector4s_bytes(d.delta_positions@) + vector4s_bytes(d.delta_normals@) + i32s_bytes(
        d.delta_indices@,
    ) + vector4s_bytes(d.positions@) + vector4s_bytes(d.normals@)
}

/// The scalar fields of a mesh in the standard file; the streaming flag is
/// written as 0.
pub open spec fn mesh_header_bytes(m: StreamingXNGMesh) -> Seq<u8> {
    u32_be(m.surface_index) + u32_be(m.vertex_type) + (match m.compression_stuff {
        Some(c) => u32s_be(c@),
        None => seq![],
    }) + seq![m.num_texture_coordinate_sets, m.compressed, 0u8, m.unk, m.unk2, m.unk3] + u32s_be(
        m.texture_coordinate_sets@,
    ) + u16_be(m.num_vertices) + u16_be(m.num_face_indices)
}

/// One mesh in the standard file, its payload taken at `off`.
#[verifier::opaque]
pub open spec fn mesh_out(m: StreamingXNGMesh, data: Seq<u8>, off: int) -> Seq<u8> {
    mesh_header_bytes(m) + data.subrange(off, off + mesh_span(m)) + match m.delta_block {
        Some(d) => delta_block_bytes(d),
        None => seq![],
    }
}

/// The payload bytes of meshes laid one after the other.
pub open spec fn meshes_span(ms: Seq<StreamingXNGMesh>) -> nat
    decreases ms.len(),
{
    if ms.len() == 0 {
        0
    } else {
        meshes_span(ms.drop_last()) + mesh_span(ms.last())
    }
}

/// Meshes in the standard file, their payloads taken one after the other from `off`.
pub open spec fn meshes_out(ms: Seq<StreamingXNGMesh>, data: Seq<u8>, off: int) -> Seq<u8>
    decreases ms.len(),
{
    if ms.len() == 0 {
        seq![]
    } else {
        meshes_out(ms.drop_last(), data, off) + mesh_out(
            ms.last(),
            data,
            off + meshes_span(ms.drop_last()),
        )
    }
}

pub open spec fn lods_span(ls: Seq<XNGLod>) -> nat
    decreases ls.len(),
{
    if ls.len() == 0 {
        0
    } else {
        lods_span(ls.drop_last()) + meshes_span(ls.last().meshes@)
    }
}

pub open spec fn lod_out(l: XNGLod, data: Seq<u8>, off: int) -> Seq<u8> {
    u32_be(l.auto_lod_value) + u32_be(l.num_meshes) + meshes_out(l.meshes@, data, off)
}

/// The levels of detail in the standard file; the meshes of all of them take
/// their payloads one after the other from the start of the payload.
pub open spec fn lods_out(ls: Seq<XNGLod>, data: Seq<u8>) -> Seq<u8>
    decreases ls.len(),
{
    if ls.len() == 0 {
        seq![]
    } else {
        lods_out(ls.drop_last(), data) + lod_out(
            ls.last(),
            data,
            lods_span(ls.drop_last()) as int,
        )
    }
}

/// Every mesh of every level of detail is in the streaming form.
pub open spec fn all_streaming(ls: Seq<XNGLod>) -> bool {
    forall|i: int, k: int|
        0 <= i < ls.len() && 0 <= k < ls[i].meshes@.len() ==> (#[trigger] ls[i].meshes@[k]).streaming
            == 1
}

pub open spec fn model_header_bytes(h: XNGHeader) -> Seq<u8> {
    written_model_magic() + i32_be(h.version) + u32_be(h.num_bones) + bones_bytes(h.bones@) + i32_be(
        h.num_mesh_names,
    ) + names_bytes(h.mesh_names@) + seq![h.num_lod, h.skin_animates_flag, h.has_weight, h.unused]
}

/// The standard mesh file rebuilt from header `h` and its payload `data`, or
/// why it cannot be: a mesh that is not in the streaming form, or payload
/// spans that run past the end of `data`.
pub open spec fn written_model(h: XNGHeader, data: Seq<u8>) -> Result<Seq<u8>, ConvertError> {
    if !all_streaming(h.lods@) {
        Err(ConvertError::Format)
    } else if lods_span(h.lods@) > data.len() {
        Err(ConvertError::BufferExhaustion)
    } else {
        Ok(model_header_bytes(h) + lods_out(h.lods@, data))
    }
}

fn push_vector4s(out: &mut Vec<u8>, vs: &Vec<Vector4>)
    ensures
        final(out)@ == old(out)@ + vector4s_bytes(vs@),
{
    let mut i: usize = 0;
    while i < vs.len()
        invariant
            i <= vs@.len(),
            out@ == old(out)@ + vector4s_bytes(vs@.subrange(0, i as int)),
        decreases vs@.len() - i,
    {
        push_vector4(out, &vs[i]);
        assert(vs@.subrange(0, i + 1).drop_last() =~= vs@.subrange(0, i as int));
        i = i + 1;
    }
    assert(vs@.subrange(0, vs@.len() as int) =~= vs@);
}

fn push_i32s(out: &mut Vec<u8>, vs: &Vec<i32>)
    ensures
        final(out)@ == old(out)@ + i32s_bytes(vs@),
{
    let mut i: usize = 0;
    while i < vs.len()
        invariant
            i <= vs@.len(),
            out@ == old(out)@ + i32s_bytes(vs@.subrange(0, i as int)),
        decreases vs@.len() - i,
    {
        push_i32(out, vs[i]);
        assert(vs@.subrange(0, i + 1).drop_last() =~= vs@.subrange(0, i as int));
        i = i + 1;
    }
    assert(vs@.subrange(0, vs@.len() as int) =~= vs@);
}

fn push_all(out: &mut Vec<u8>, bytes: &Vec<u8>)
    ensures
        final(out)@ == old(out)@ + bytes@,
{
    push_range(out, bytes.as_slice(), 0, bytes.len());
    assert(bytes@.subrange(0, bytes@.len() as int) =~= bytes@);
}

fn write_delta_block(out: &mut Vec<u8>, d: &XNGDeltaBlock)
    ensures
        final(out)@ == old(out)@ + delta_block_bytes(*d),
{
    let ghost o0 = out@;
    push_u32(out, d.num_channels);
    push_all(out, &d.controller_name);
    push_u32(out, d.num_vertices);
    push_u32(out, d.xyz_bits);
    out.push(d.force_unique);
    push_u32(out, d.unk);
    push_u32(out, d.unk2);
    push_u32(out, d.delta_count);
    let ghost o1 = out@;
    push_vector4s(out, &d.delta_positions);
    push_vector4s(out, &d.delta_normals);
    push_i32s(out, &d.delta_indices);
    push_vector4s(out, &d.positions);
    push_vector4s(out, &d.normals);
    assert(o1 =~= o0 + (u32_be(d.num_channels) + d.controller_name@ + u32_be(d.num_vertices)
        + u32_be(d.xyz_bits) + seq![d.force_unique] + u32_be(d.unk) + u32_be(d.unk2) + u32_be(
        d.delta_count,
    )));
    assert(final(out)@ =~= old(out)@ + delta_block_bytes(*d));
}

fn write_mesh_header(out: &mut Vec<u8>, m: &StreamingXNGMesh)
    ensures
        final(out)@ == old(out)@ + mesh_header_bytes(*m),
{
    let ghost o0 = out@;
    push_u32(out, m.surface_index);
    push_u32(out, m.vertex_type);
    match &m.compression_stuff {
        Some(c) => push_u32s(out, c.as_slice()),
        None => {},
    }
    let ghost o1 = out@;
    out.push(m.num_texture_coordinate_sets);
    out.push(m.compressed);
    out.push(0);
    out.push(m.unk);
    out.push(m.unk2);
    out.push(m.unk3);
    let ghost o2 = out@;
    push_u32s(out, m.texture_coordinate_sets.as_slice());
    push_u16(out, m.num_vertices);
    push_u16(out, m.num_face_indices);
    assert(o1 =~= o0 + (u32_be(m.surface_index) + u32_be(m.vertex_type) + match m.compression_stuff {
        Some(c) => u32s_be(c@),
        None => seq![],
    }));
    assert(o2 =~= o1 + seq![m.num_texture_coordinate_sets, m.compressed, 0u8, m.unk, m.unk2, m.unk3]);
    assert(final(out)@ =~= old(out)@ + mesh_header_bytes(*m));
}

/// Appends mesh `m` in the standard layout, its payload taken at `off`.
fn write_mesh(out: &mut Vec<u8>, m: &StreamingXNGMesh, data: &[u8], off: usize)
    requires
        off + mesh_span(*m) <= data@.len(),
    ensures
        final(out)@ == old(out)@ + mesh_out(*m, data@, off as int),
{
    reveal(mesh_out);
    write_mesh_header(out, m);
    let span = mesh_payload_span(m.vertex_type, m.num_vertices, m.num_face_indices);
    let len = data.len();
    assert(off + span <= len);
    push_range(out, data, off, off + span as usize);
    match &m.delta_block {
        Some(d) => write_delta_block(out, d),
        None => {},
    }
    assert(final(out)@ =~= old(out)@ + mesh_out(*m, data@, off as int));
}

proof fn lemma_meshes_span_prefix(ms: Seq<StreamingXNGMesh>, i: int)
    requires
        0 <= i <= ms.len(),
    ensures
        meshes_span(ms.subrange(0, i)) <= meshes_span(ms),
    decreases ms.len(),
{
    if i < ms.len() {
        lemma_meshes_span_prefix(ms.drop_last(), i);
        assert(ms.drop_last().subrange(0, i) =~= ms.subrange(0, i));
    } else {
        assert(ms.subrange(0, i) =~= ms);
    }
}

proof fn lemma_lods_span_prefix(ls: Seq<XNGLod>, i: int)
    requires
        0 <= i <= ls.len(),
    ensures
        lods_span(ls.subrange(0, i)) <= lods_span(ls),
    decreases ls.len(),
{
    if i < ls.len() {
        lemma_lods_span_prefix(ls.drop_last(), i);
        assert(ls.drop_last().subrange(0, i) =~= ls.subrange(0, i));
    } else {
        assert(ls.subrange(0, i) =~= ls);
    }
}

proof fn lemma_seq_assoc(a: Seq<u8>, b: Seq<u8>, c: Seq<u8>)
    ensures
        a + b + c == a + (b + c),
{
    assert(a + b + c =~= a + (b + c));
}

impl XNGHeader {
    /// Tells whether every mesh is in the streaming form.
    fn all_streaming(&self) -> (r: bool)
        ensures
            r == all_streaming(self.lods@),
    {
        let mut i: usize = 0;
        while i < self.lods.len()
            invariant
                i <= self.lods@.len(),
                forall|a: int, k: int|
                    0 <= a < i && 0 <= k < self.lods@[a].meshes@.len() ==> (
                    #[trigger] self.lods@[a].meshes@[k]).streaming == 1,
            decreases self.lods@.len() - i,
        {
            let meshes = &self.lods[i].meshes;
            let mut k: usize = 0;
            while k < meshes.len()
                invariant
                    i < self.lods@.len(),
                    meshes == &self.lods@[i as int].meshes,
                    k <= meshes@.len(),
                    forall|a: int, b: int|
                        0 <= a < i && 0 <= b < self.lods@[a].meshes@.len() ==> (
                        #[trigger] self.lods@[a].meshes@[b]).streaming == 1,
                    forall|b: int| 0 <= b < k ==> (#[trigger] meshes@[b]).streaming == 1,
                decreases meshes@.len() - k,
            {
                if meshes[k].streaming != 1 {
                    return false;
                }
                k = k + 1;
            }
            i = i + 1;
        }
        true
    }

    /// The payload bytes of all meshes, or `None` when that is more than `limit`.
    fn total_span(&self, limit: usize) -> (r: Option<usize>)
        ensures
            r matches Some(n) ==> n == lods_span(self.lods@),
            r is None <==> lods_span(self.lods@) > limit,
    {
        let lods = &self.lods;
        let mut total: usize = 0;
        let mut i: usize = 0;
        while i < lods.len()
            invariant
                lods == &self.lods,
                i <= lods@.len(),
                total == lods_span(lods@.subrange(0, i as int)),
                total <= limit,
            decreases lods@.len() - i,
        {
            let meshes = &lods[i].meshes;
            let ghost base = total;
            assert(lods@.subrange(0, i + 1).drop_last() =~= lods@.subrange(0, i as int));
            let mut k: usize = 0;
            while k < meshes.len()
                invariant
                    lods == &self.lods,
                    i < lods@.len(),
                    meshes == &lods@[i as int].meshes,
                    base == lods_span(lods@.subrange(0, i as int)),
                    lods_span(lods@.subrange(0, i + 1)) == base + meshes_span(meshes@),
                    k <= meshes@.len(),
                    total == base + meshes_span(meshes@.subrange(0, k as int)),
                    total <= limit,
                decreases meshes@.len() - k,
            {
                let n = mesh_payload_span(meshes[k].vertex_type, meshes[k].num_vertices, meshes[k].num_face_indices);
                assert(meshes@.subrange(0, k + 1).drop_last() =~= meshes@.subrange(0, k as int));
                if n > (limit - total) as u64 {
                    proof {
                        lemma_meshes_span_prefix(meshes@, k + 1);
                        lemma_lods_span_prefix(lods@, i + 1);
                    }
                    return None;
                }
                total = total + n as usize;
                k = k + 1;
            }
            assert(meshes@.subrange(0, meshes@.len() as int) =~= meshes@);
            i = i + 1;
        }
        assert(lods@.subrange(0, lods@.len() as int) =~= lods@);
        Some(total)
    }

    fn write_header_fields(&self, out: &mut Vec<u8>)
        ensures
            final(out)@ == old(out)@ + model_header_bytes(*self),
    {
        out.push(0x78);
        out.push(0x6e);
        out.push(0x67);
        out.push(0x00);
        push_i32(out, self.version);
        push_u32(out, self.num_bones);
        let ghost o1 = out@;
        let mut i: usize = 0;
        while i < self.bones.len()
            invariant
                i <= self.bones@.len(),
                out@ == o1 + bones_bytes(self.bones@.subrange(0, i as int)),
            decreases self.bones@.len() - i,
        {
            let b = &self.bones[i];
            let ghost before = out@;
            push_all(out, &b.name);
            push_u32s(out, b.matrix.as_slice());
            push_u32s(out, b.bounding_box_center.as_slice());
            push_u32s(out, b.bounding_box_half.as_slice());
            push_u32(out, b.bounding_box_radius);
            push_u32(out, b.parent_index);
            assert(out@ =~= before + bone_bytes(*b));
            assert(self.bones@.subrange(0, i + 1).drop_last() =~= self.bones@.subrange(0, i as int));
            proof {
                lemma_seq_assoc(o1, bones_bytes(self.bones@.subrange(0, i as int)), bone_bytes(*b));
            }
            i = i + 1;
        }
        assert(self.bones@.subrange(0, self.bones@.len() as int) =~= self.bones@);
        push_i32(out, self.num_mesh_names);
        let ghost o2 = out@;
        let mut j: usize = 0;
        while j < self.mesh_names.len()
            invariant
                j <= self.mesh_names@.len(),
                out@ == o2 + names_bytes(self.mesh_names@.subrange(0, j as int)),
            decreases self.mesh_names@.len() - j,
        {
            push_all(out, &self.mesh_names[j].name);
            assert(self.mesh_names@.subrange(0, j + 1).drop_last() =~= self.mesh_names@.subrange(0, j as int));
            j = j + 1;
        }
        assert(self.mesh_names@.subrange(0, self.mesh_names@.len() as int) =~= self.mesh_names@);
        out.push(self.num_lod);
        out.push(self.skin_animates_flag);
        out.push(self.has_weight);
        out.push(self.unused);
        assert(final(out)@ =~= old(out)@ + model_header_bytes(*self));
    }

    /// Rebuilds the standard mesh file from this header and the payload.
    ///
    /// Every mesh must be in the streaming form, and the payload must hold the
    /// spans of all meshes; each span is copied as it is, in mesh order.
    /// Nothing is returned but an error when either fails.
    pub fn write(&self, args: &XNGHeaderArgs) -> (r: Result<Vec<u8>, ConvertError>)
        ensures
            bytes_result(r) == written_model(*self, args.streaming_data@),
    {
        let data = args.streaming_data.as_slice();
        if !self.all_streaming() {
            return Err(ConvertError::Format);
        }
        if self.total_span(data.len()).is_none() {
            return Err(ConvertError::BufferExhaustion);
        }
        let mut out: Vec<u8> = Vec::new();
        self.write_header_fields(&mut out);
        let ghost base = out@;
        let lods = &self.lods;
        let len = data.len();
        let mut cursor: usize = 0;
        let mut i: usize = 0;
        while i < lods.len()
            invariant
                lods == &self.lods,
                data@ == args.streaming_data@,
                len == data@.len(),
                lods_span(lods@) <= len,
                i <= lods@.len(),
                cursor == lods_span(lods@.subrange(0, i as int)),
                out@ == base + lods_out(lods@.subrange(0, i as int), data@),
            decreases lods@.len() - i,
        {
            let lod = &lods[i];
            let meshes = &lod.meshes;
            let ghost lod_base = out@;
            let ghost start = cursor;
            assert(lods@.subrange(0, i + 1).drop_last() =~= lods@.subrange(0, i as int));
            proof {
                lemma_lods_span_prefix(lods@, i + 1);
            }
            push_u32(&mut out, lod.auto_lod_value);
            push_u32(&mut out, lod.num_meshes);
            let ghost mesh_base = out@;
            let mut k: usize = 0;
            while k < meshes.len()
                invariant
                    lods == &self.lods,
                    i < lods@.len(),
                    meshes == &lods@[i as int].meshes,
                    len == data@.len(),
                    start + meshes_span(meshes@) <= len,
                    k <= meshes@.len(),
                    cursor == start + meshes_span(meshes@.subrange(0, k as int)),
                    out@ == mesh_base + meshes_out(meshes@.subrange(0, k as int), data@, start as int),
                decreases meshes@.len() - k,
            {
                let m = &meshes[k];
                assert(meshes@.subrange(0, k + 1).drop_last() =~= meshes@.subrange(0, k as int));
                proof {
                    lemma_meshes_span_prefix(meshes@, k + 1);
                }
                let n = mesh_payload_span(m.vertex_type, m.num_vertices, m.num_face_indices);
                write_mesh(&mut out, m, data, cursor);
                proof {
                    lemma_seq_assoc(
                        mesh_base,
                        meshes_out(meshes@.subrange(0, k as int), data@, start as int),
                        mesh_out(*m, data@, cursor as int),
                    );
                }
                cursor = cursor + n as usize;
                k = k + 1;
            }
            assert(meshes@.subrange(0, meshes@.len() as int) =~= meshes@);
            assert(out@ =~= lod_base + lod_out(*lod, data@, start as int));
            proof {
                lemma_seq_assoc(base, lods_out(lods@.subrange(0, i as int), data@), lod_out(*lod, data@, start as int));
            }
            i = i + 1;
        }
        assert(lods@.subrange(0, lods@.len() as int) =~= lods@);
        Ok(out)
    }
}

/// The tag that a mesh header in the scene index opens with.
pub open spec fn read_model_magic() -> Seq<u8> {
    seq![0x78u8, 0x67u8, 0x73u8, 0x00u8]
}

/// A mesh header as the scene index holds it.
pub open spec fn mesh_index_bytes(m: StreamingXNGMesh) -> Seq<u8> {
    mesh_lead_bytes(m) + mesh_mid_bytes(m) + mesh_tail_bytes(m)
}

/// Surface index, vertex flags, and the compression data they call for.
pub open spec fn mesh_lead_bytes(m: StreamingXNGMesh) -> Seq<u8> {
    u32_be(m.surface_index) + u32_be(m.vertex_type) + match m.compression_stuff {
        Some(c) => u32s_be(c@),
        None => seq![],
    }
}

/// The flag bytes, texture coordinate sets and the two counts.
pub open spec fn mesh_mid_bytes(m: StreamingXNGMesh) -> Seq<u8> {
    seq![m.num_texture_coordinate_sets, m.compressed, m.streaming, m.unk, m.unk2, m.unk3]
        + u32s_be(m.texture_coordinate_sets@) + u16_be(m.num_vertices) + u16_be(m.num_face_indices)
}

/// The delta block, where the flags call for one.
pub open spec fn mesh_tail_bytes(m: StreamingXNGMesh) -> Seq<u8> {
    match m.delta_block {
        Some(d) => delta_block_bytes(d),
        None => seq![],
    }
}

pub open spec fn meshes_index_bytes(ms: Seq<StreamingXNGMesh>) -> Seq<u8>
    decreases ms.len(),
{
    if ms.len() == 0 {
        seq![]
    } else {
        meshes_index_bytes(ms.drop_last()) + mesh_index_bytes(ms.last())
    }
}

pub open spec fn lod_index_bytes(l: XNGLod) -> Seq<u8> {
    u32_be(l.auto_lod_value) + u32_be(l.num_meshes) + meshes_index_bytes(l.meshes@)
}

pub open spec fn lods_index_bytes(ls: Seq<XNGLod>) -> Seq<u8>
    decreases ls.len(),
{
    if ls.len() == 0 {
        seq![]
    } else {
        lods_index_bytes(ls.drop_last()) + lod_index_bytes(ls.last())
    }
}

/// A renderable model header as the scene index holds it.
pub open spec fn model_index_bytes(h: XNGHeader) -> Seq<u8> {
    read_model_magic() + i32_be(h.version) + u32_be(h.num_bones) + bones_bytes(h.bones@) + i32_be(
        h.num_mesh_names,
    ) + names_bytes(h.mesh_names@) + seq![h.num_lod, h.skin_animates_flag, h.has_weight, h.unused]
        + lods_index_bytes(h.lods@)
}

/// The optional parts of a mesh are there exactly when its flags say so.
pub open spec fn mesh_wf(m: StreamingXNGMesh) -> bool {
    &&& (m.compression_stuff is Some <==> m.vertex_type & 0x2000 == 0x2000)
    &&& (m.delta_block is Some <==> m.vertex_type & 0x100 == 0x100)
    &&& m.texture_coordinate_sets@.len() == m.num_texture_coordinate_sets
}

/// The counts of a header read from the scene index agree with what follows them.
pub open spec fn model_wf(h: XNGHeader) -> bool {
    &&& h.bones@.len() == h.num_bones
    &&& h.mesh_names@.len() == h.num_mesh_names
    &&& h.lods@.len() == h.num_lod
    &&& forall|i: int| 0 <= i < h.lods@.len() ==> (#[trigger] h.lods@[i]).meshes@.len() == h.lods@[i].num_meshes
}

/// Where a delta block that starts at `pos` ends, if the bytes hold it: 89
/// bytes of fields, then 36 bytes per delta and 32 per vertex.
pub open spec fn delta_end(data: Seq<u8>, pos: int) -> Option<int> {
    if pos + 89 > data.len() {
        None
    } else {
        let e = pos + 89 + 36 * (be_u32(data, pos + 85) as int) + 32 * (be_u32(data, pos + 68) as int);
        if e <= data.len() {
            Some(e)
        } else {
            None
        }
    }
}

/// Where a mesh header that starts at `pos` ends, if the bytes hold it: its
/// compression data and delta block are there when its flags say so, and it
/// holds as many texture coordinate sets as its count byte says.
pub open spec fn mesh_end(data: Seq<u8>, pos: int) -> Option<int> {
    if pos + 8 > data.len() {
        None
    } else {
        let vertex_type = be_u32(data, pos + 4);
        let at_flags = pos + 8 + if vertex_type & 0x2000 == 0x2000 {
            32int
        } else {
            0int
        };
        if at_flags + 6 > data.len() {
            None
        } else {
            let at_tail = at_flags + 6 + 4 * (data[at_flags] as int) + 4;
            if at_tail > data.len() {
                None
            } else if vertex_type & 0x100 == 0x100 {
                delta_end(data, at_tail)
            } else {
                Some(at_tail)
            }
        }
    }
}

/// Where `n` mesh headers laid one after the other from `pos` end.
pub open spec fn meshes_end(data: Seq<u8>, pos: int, n: nat) -> Option<int>
    decreases n,
{
    if n == 0 {
        Some(pos)
    } else {
        match mesh_end(data, pos) {
            Some(e) => meshes_end(data, e, (n - 1) as nat),
            None => None,
        }
    }
}

/// Where a level of detail that starts at `pos` ends.
pub open spec fn lod_end(data: Seq<u8>, pos: int) -> Option<int> {
    if pos + 8 > data.len() {
        None
    } else {
        meshes_end(data, pos + 8, be_u32(data, pos + 4) as nat)
    }
}

/// Where `n` levels of detail laid one after the other from `pos` end.
pub open spec fn lods_end(data: Seq<u8>, pos: int, n: nat) -> Option<int>
    decreases n,
{
    if n == 0 {
        Some(pos)
    } else {
        match lod_end(data, pos) {
            Some(e) => lods_end(data, e, (n - 1) as nat),
            None => None,
        }
    }
}

/// Where a renderable model header that starts at `pos` ends, if the bytes
/// hold one: the tag, 224 bytes per bone, a non-negative count of 64-byte
/// mesh names, four flag bytes (the first one the level count), and the
/// levels of detail.
pub open spec fn model_end(data: Seq<u8>, pos: int) -> Option<int> {
    if pos + 12 > data.len() || data.subrange(pos, pos + 4) != read_model_magic() {
        None
    } else {
        let at_names = pos + 12 + 224 * (be_u32(data, pos + 8) as int);
        if at_names + 4 > data.len() {
            None
        } else {
            let names = be_u32(data, at_names) as i32;
            let at_flags = at_names + 4 + 64 * names;
            if names < 0 || at_flags + 4 > data.len() {
                None
            } else {
                lods_end(data, at_flags + 4, data[at_flags] as nat)
            }
        }
    }
}

fn parse_vector4s(data: &[u8], pos: usize, n: u32) -> (r: Option<(Vec<Vector4>, usize)>)
    requires
        pos <= data@.len(),
    ensures
        r is Some <==> pos + 16 * n <= data@.len(),
        r matches Some((vs, end)) ==> end == pos + 16 * n && vs@.len() == n && data@.subrange(
            pos as int,
            end as int,
        ) == vector4s_bytes(vs@),
{
    let len = data.len();
    let mut vs: Vec<Vector4> = Vec::new();
    let mut p: usize = pos;
    let mut i: u32 = 0;
    assert(data@.subrange(pos as int, pos as int) =~= Seq::<u8>::empty());
    while i < n
        invariant
            len == data@.len(),
            pos <= p <= len,
            i <= n,
            p == pos + 16 * i,
            vs@.len() == i,
            data@.subrange(pos as int, p as int) == vector4s_bytes(vs@),
        decreases n - i,
    {
        if len - p < 16 {
            return None;
        }
        let v = take_vector4(data, p, Ghost(pos as int));
        let ghost before = vs@;
        vs.push(v);
        assert(vs@.drop_last() =~= before);
        p = p + 16;
        i = i + 1;
    }
    Some((vs, p))
}

fn parse_i32s(data: &[u8], pos: usize, n: u32) -> (r: Option<(Vec<i32>, usize)>)
    requires
        pos <= data@.len(),
    ensures
        r is Some <==> pos + 4 * n <= data@.len(),
        r matches Some((vs, end)) ==> end == pos + 4 * n && vs@.len() == n && data@.subrange(
            pos as int,
            end as int,
        ) == i32s_bytes(vs@),
{
    let len = data.len();
    let mut vs: Vec<i32> = Vec::new();
    let mut p: usize = pos;
    let mut i: u32 = 0;
    assert(data@.subrange(pos as int, pos as int) =~= Seq::<u8>::empty());
    while i < n
        invariant
            len == data@.len(),
            pos <= p <= len,
            i <= n,
            p == pos + 4 * i,
            vs@.len() == i,
            data@.subrange(pos as int, p as int) == i32s_bytes(vs@),
        decreases n - i,
    {
        if len - p < 4 {
            return None;
        }
        let v = take_i32(data, p, Ghost(pos as int));
        let ghost before = vs@;
        vs.push(v);
        assert(vs@.drop_last() =~= before);
        p = p + 4;
        i = i + 1;
    }
    Some((vs, p))
}

/// Reads a delta block at `pos`.
fn parse_delta_block(data: &[u8], pos: usize) -> (r: Option<(XNGDeltaBlock, usize)>)
    requires
        pos <= data@.len(),
    ensures
        r is Some <==> delta_end(data@, pos as int) is Some,
        r matches Some((d, end)) ==> delta_end(data@, pos as int) == Some(end as int)
            && data@.subrange(pos as int, end as int) == delta_block_bytes(d),
{
    let len = data.len();
    if len - pos < 89 {
        return None;
    }
    let ghost s = pos as int;
    let num_channels = take_u32(data, pos, Ghost(s));
    let controller_name = take_bytes(data, pos + 4, 64, Ghost(s));
    let num_vertices = take_u32(data, pos + 68, Ghost(s));
    let xyz_bits = take_u32(data, pos + 72, Ghost(s));
    let force_unique = take_u8(data, pos + 76, Ghost(s));
    let unk = take_u32(data, pos + 77, Ghost(s));
    let unk2 = take_u32(data, pos + 81, Ghost(s));
    let delta_count = take_u32(data, pos + 85, Ghost(s));
    let at_positions: usize = pos + 89;
    let (delta_positions, at_normals) = match parse_vector4s(data, at_positions, delta_count) {
        Some(found) => found,
        None => {
            return None;
        },
    };
    let (delta_normals, at_indices) = match parse_vector4s(data, at_normals, delta_count) {
        Some(found) => found,
        None => {
            return None;
        },
    };
    let (delta_indices, at_vertices) = match parse_i32s(data, at_indices, delta_count) {
        Some(found) => found,
        None => {
            return None;
        },
    };
    let (positions, at_vertex_normals) = match parse_vector4s(data, at_vertices, num_vertices) {
        Some(found) => found,
        None => {
            return None;
        },
    };
    let (normals, end) = match parse_vector4s(data, at_vertex_normals, num_vertices) {
        Some(found) => found,
        None => {
            return None;
        },
    };
    let d = XNGDeltaBlock {
        num_channels,
        controller_name,
        num_vertices,
        xyz_bits,
        force_unique,
        unk,
        unk2,
        delta_count,
        delta_positions,
        delta_normals,
        delta_indices,
        positions,
        normals,
    };
    proof {
        assert(data@.subrange(s, s) =~= Seq::<u8>::empty());
        lemma_subrange_split(data@, s, at_positions as int, at_normals as int);
        lemma_subrange_split(data@, s, at_normals as int, at_indices as int);
        lemma_subrange_split(data@, s, at_indices as int, at_vertices as int);
        lemma_subrange_split(data@, s, at_vertices as int, at_vertex_normals as int);
        lemma_subrange_split(data@, s, at_vertex_normals as int, end as int);
        assert(data@.subrange(s, end as int) =~= delta_block_bytes(d));
    }
    Some((d, end))
}

/// Reads a mesh header at `pos`.
#[verifier::rlimit(40)]
fn parse_mesh(data: &[u8], pos: usize) -> (r: Option<(StreamingXNGMesh, usize)>)
    requires
        pos <= data@.len(),
    ensures
        r is Some <==> mesh_end(data@, pos as int) is Some,
        r matches Some((m, end)) ==> mesh_end(data@, pos as int) == Some(end as int) && mesh_wf(m)
            && data@.subrange(pos as int, end as int) == mesh_index_bytes(m),
{
    let len = data.len();
    if len - pos < 8 {
        return None;
    }
    let ghost s = pos as int;
    assert(data@.subrange(s, s) =~= Seq::<u8>::empty());
    let surface_index = take_u32(data, pos, Ghost(s));
    let vertex_type = take_u32(data, pos + 4, Ghost(s));
    let mut p: usize = pos + 8;
    let compression_stuff = if vertex_type & 0x2000 == 0x2000 {
        if len - p < 32 {
            return None;
        }
        let c = take_u32s(data, p, 8, Ghost(s));
        p = p + 32;
        Some(c)
    } else {
        None
    };
    let p_mid: usize = p;
    if len - p < 6 {
        return None;
    }
    let ghost m0 = p_mid as int;
    assert(data@.subrange(m0, m0) =~= Seq::<u8>::empty());
    let num_texture_coordinate_sets = take_u8(data, p, Ghost(m0));
    let compressed = take_u8(data, p + 1, Ghost(m0));
    let streaming = take_u8(data, p + 2, Ghost(m0));
    let unk = take_u8(data, p + 3, Ghost(m0));
    let unk2 = take_u8(data, p + 4, Ghost(m0));
    let unk3 = take_u8(data, p + 5, Ghost(m0));
    p = p + 6;
    let n = num_texture_coordinate_sets as usize;
    if len - p < 4 * n + 4 {
        return None;
    }
    let texture_coordinate_sets = take_u32s(data, p, n, Ghost(m0));
    p = p + 4 * n;
    let num_vertices = take_u16(data, p, Ghost(m0));
    let num_face_indices = take_u16(data, p + 2, Ghost(m0));
    p = p + 4;
    let p_tail: usize = p;
    let delta_block = if vertex_type & 0x100 == 0x100 {
        match parse_delta_block(data, p) {
            Some((d, end)) => {
                p = end;
                Some(d)
            },
            None => {
                return None;
            },
        }
    } else {
        None
    };
    let m = StreamingXNGMesh {
        surface_index,
        vertex_type,
        compression_stuff,
        num_texture_coordinate_sets,
        compressed,
        streaming,
        unk,
        unk2,
        unk3,
        texture_coordinate_sets,
        num_vertices,
        num_face_indices,
        delta_block,
    };
    proof {
        assert(data@.subrange(s, p_mid as int) =~= mesh_lead_bytes(m));
        assert(data@.subrange(p_mid as int, p_tail as int) =~= mesh_mid_bytes(m));
        assert(data@.subrange(p_tail as int, p as int) =~= mesh_tail_bytes(m));
        lemma_subrange_split(data@, s, p_mid as int, p_tail as int);
        lemma_subrange_split(data@, s, p_tail as int, p as int);
    }
    Some((m, p))
}

/// Reads a level of detail at `pos`.
fn parse_lod(data: &[u8], pos: usize) -> (r: Option<(XNGLod, usize)>)
    requires
        pos <= data@.len(),
    ensures
        r is Some <==> lod_end(data@, pos as int) is Some,
        r matches Some((l, end)) ==> pos <= end <= data@.len() && lod_end(data@, pos as int) == Some(
            end as int,
        ) && l.meshes@.len() == l.num_meshes
            && (forall|k: int| 0 <= k < l.meshes@.len() ==> mesh_wf(#[trigger] l.meshes@[k]))
            && data@.subrange(pos as int, end as int) == lod_index_bytes(l),
{
    let len = data.len();
    if len - pos < 8 {
        return None;
    }
    let ghost s = pos as int;
    assert(data@.subrange(s, s) =~= Seq::<u8>::empty());
    let auto_lod_value = take_u32(data, pos, Ghost(s));
    let num_meshes = take_u32(data, pos + 4, Ghost(s));
    let mstart: usize = pos + 8;
    let mut p: usize = mstart;
    let mut meshes: Vec<StreamingXNGMesh> = Vec::new();
    let mut i: u32 = 0;
    assert(data@.subrange(mstart as int, mstart as int) =~= Seq::<u8>::empty());
    while i < num_meshes
        invariant
            len == data@.len(),
            mstart <= p <= len,
            i <= num_meshes,
            mstart == pos + 8,
            num_meshes == be_u32(data@, pos + 4),
            lod_end(data@, pos as int) == meshes_end(data@, p as int, (num_meshes - i) as nat),
            meshes@.len() == i,
            forall|k: int| 0 <= k < meshes@.len() ==> mesh_wf(#[trigger] meshes@[k]),
            data@.subrange(mstart as int, p as int) == meshes_index_bytes(meshes@),
        decreases num_meshes - i,
    {
        let (m, end) = match parse_mesh(data, p) {
            Some(found) => found,
            None => {
                return None;
            },
        };
        proof {
            lemma_subrange_split(data@, mstart as int, p as int, end as int);
        }
        let ghost before = meshes@;
        meshes.push(m);
        assert(meshes@.drop_last() =~= before);
        p = end;
        i = i + 1;
    }
    let l = XNGLod { auto_lod_value, num_meshes, meshes };
    proof {
        lemma_subrange_split(data@, s, mstart as int, p as int);
        assert(data@.subrange(s, p as int) =~= lod_index_bytes(l));
    }
    Some((l, p))
}

/// Reads a bone at `pos`.
fn parse_bone(data: &[u8], pos: usize) -> (r: Option<(XNGBone, usize)>)
    requires
        pos <= data@.len(),
    ensures
        r is None <==> pos + 224 > data@.len(),
        r matches Some((b, end)) ==> end == pos + 224 && data@.subrange(pos as int, end as int)
            == bone_bytes(b),
{
    let len = data.len();
    if len - pos < 224 {
        return None;
    }
    let ghost s = pos as int;
    assert(data@.subrange(s, s) =~= Seq::<u8>::empty());
    let name = take_bytes(data, pos, 128, Ghost(s));
    let matrix = take_u32s(data, pos + 128, 16, Ghost(s));
    let bounding_box_center = take_u32s(data, pos + 192, 3, Ghost(s));
    let bounding_box_half = take_u32s(data, pos + 204, 3, Ghost(s));
    let bounding_box_radius = take_u32(data, pos + 216, Ghost(s));
    let parent_index = take_u32(data, pos + 220, Ghost(s));
    let b = XNGBone {
        name,
        matrix,
        bounding_box_center,
        bounding_box_half,
        bounding_box_radius,
        parent_index,
    };
    assert(data@.subrange(s, pos + 224) =~= bone_bytes(b));
    Some((b, pos + 224))
}

fn parse_bones(data: &[u8], pos: usize, n: u32) -> (r: Option<(Vec<XNGBone>, usize)>)
    requires
        pos <= data@.len(),
    ensures
        r is Some <==> pos + 224 * n <= data@.len(),
        r matches Some((bs, end)) ==> end == pos + 224 * n && bs@.len() == n && data@.subrange(
            pos as int,
            end as int,
        ) == bones_bytes(bs@),
{
    let len = data.len();
    let mut p: usize = pos;
    let mut bones: Vec<XNGBone> = Vec::new();
    let mut i: u32 = 0;
    assert(data@.subrange(pos as int, pos as int) =~= Seq::<u8>::empty());
    while i < n
        invariant
            len == data@.len(),
            pos <= p <= len,
            i <= n,
            p == pos + 224 * i,
            bones@.len() == i,
            data@.subrange(pos as int, p as int) == bones_bytes(bones@),
        decreases n - i,
    {
        assert(pos + 224 * n >= p + 224) by (nonlinear_arith)
            requires
                p == pos + 224 * i,
                i < n,
        ;
        let (b, end) = match parse_bone(data, p) {
            Some(found) => found,
            None => {
                return None;
            },
        };
        proof {
            lemma_subrange_split(data@, pos as int, p as int, end as int);
        }
        let ghost before = bones@;
        bones.push(b);
        assert(bones@.drop_last() =~= before);
        p = end;
        i = i + 1;
    }
    Some((bones, p))
}

fn parse_names(data: &[u8], pos: usize, n: i32) -> (r: Option<(Vec<XNGMeshName>, usize)>)
    requires
        pos <= data@.len(),
        0 <= n,
    ensures
        r is Some <==> pos + 64 * n <= data@.len(),
        r matches Some((ns, end)) ==> end == pos + 64 * n && ns@.len() == n && data@.subrange(
            pos as int,
            end as int,
        ) == names_bytes(ns@),
{
    let len = data.len();
    let mut p: usize = pos;
    let mut names: Vec<XNGMeshName> = Vec::new();
    let mut j: i32 = 0;
    assert(data@.subrange(pos as int, pos as int) =~= Seq::<u8>::empty());
    while j < n
        invariant
            len == data@.len(),
            pos <= p <= len,
            0 <= j <= n,
            p == pos + 64 * j,
            names@.len() == j,
            data@.subrange(pos as int, p as int) == names_bytes(names@),
        decreases n - j,
    {
        assert(pos + 64 * n >= p + 64) by (nonlinear_arith)
            requires
                p == pos + 64 * j,
                j < n,
        ;
        if len - p < 64 {
            return None;
        }
        let name = take_bytes(data, p, 64, Ghost(pos as int));
        let ghost before = names@;
        names.push(XNGMeshName { name });
        assert(names@.drop_last() =~= before);
        p = p + 64;
        j = j + 1;
    }
    Some((names, p))
}

fn parse_lods(data: &[u8], pos: usize, n: u8) -> (r: Option<(Vec<XNGLod>, usize)>)
    requires
        pos <= data@.len(),
    ensures
        r is Some <==> lods_end(data@, pos as int, n as nat) is Some,
        r matches Some((ls, end)) ==> pos <= end <= data@.len() && lods_end(
            data@,
            pos as int,
            n as nat,
        ) == Some(end as int) && ls@.len() == n && (forall|i: int|
            0 <= i < ls@.len() ==> (#[trigger] ls@[i]).meshes@.len() == ls@[i].num_meshes)
            && data@.subrange(pos as int, end as int) == lods_index_bytes(ls@),
{
    let len = data.len();
    let mut p: usize = pos;
    let mut lods: Vec<XNGLod> = Vec::new();
    let mut k: u8 = 0;
    assert(data@.subrange(pos as int, pos as int) =~= Seq::<u8>::empty());
    while k < n
        invariant
            len == data@.len(),
            pos <= p <= len,
            k <= n,
            lods_end(data@, pos as int, n as nat) == lods_end(data@, p as int, (n - k) as nat),
            lods@.len() == k,
            forall|i: int| 0 <= i < lods@.len() ==> (#[trigger] lods@[i]).meshes@.len() == lods@[i].num_meshes,
            data@.subrange(pos as int, p as int) == lods_index_bytes(lods@),
        decreases n - k,
    {
        let (l, end) = match parse_lod(data, p) {
            Some(found) => found,
            None => {
                return None;
            },
        };
        proof {
            lemma_subrange_split(data@, pos as int, p as int, end as int);
        }
        let ghost before = lods@;
        lods.push(l);
        assert(lods@.drop_last() =~= before);
        p = end;
        k = k + 1;
    }
    Some((lods, p))
}

impl XNGHeader {
    /// Reads a renderable model header from the scene index at `pos`: the tag
    /// `xgs\0`, version, bones, mesh names, flags and levels of detail. Gives
    /// the header and the position after it, or `None` exactly when the bytes
    /// do not hold one (see `model_end`).
    pub fn parse(data: &[u8], pos: usize) -> (r: Option<(XNGHeader, usize)>)
        ensures
            r is Some <==> model_end(data@, pos as int) is Some,
            r matches Some((h, end)) ==> pos <= end <= data@.len() && model_end(data@, pos as int)
                == Some(end as int) && model_wf(h) && data@.subrange(pos as int, end as int)
                == model_index_bytes(h),
    {
        let len = data.len();
        if pos > len || len - pos < 12 {
            return None;
        }
        if data[pos] != 0x78 || data[pos + 1] != 0x67 || data[pos + 2] != 0x73 || data[pos + 3]
            != 0x00 {
            proof {
                let head = data@.subrange(pos as int, pos + 4);
                assert(head[0] == data@[pos as int] && head[1] == data@[pos + 1] && head[2]
                    == data@[pos + 2] && head[3] == data@[pos + 3]);
                assert(head != read_model_magic());
            }
            return None;
        }
        let ghost s = pos as int;
        assert(data@.subrange(s, pos + 4) =~= read_model_magic());
        let version = take_i32(data, pos + 4, Ghost(s));
        let num_bones = take_u32(data, pos + 8, Ghost(s));
        let bstart: usize = pos + 12;
        let (bones, bend) = match parse_bones(data, bstart, num_bones) {
            Some(found) => found,
            None => {
                return None;
            },
        };
        if len - bend < 4 {
            return None;
        }
        let num_mesh_names = take_i32(data, bend, Ghost(bend as int));
        if num_mesh_names < 0 {
            return None;
        }
        let nstart: usize = bend + 4;
        let (mesh_names, nend) = match parse_names(data, nstart, num_mesh_names) {
            Some(found) => found,
            None => {
                return None;
            },
        };
        if len - nend < 4 {
            return None;
        }
        let num_lod = data[nend];
        let skin_animates_flag = data[nend + 1];
        let has_weight = data[nend + 2];
        let unused = data[nend + 3];
        let lstart: usize = nend + 4;
        let (lods, end) = match parse_lods(data, lstart, num_lod) {
            Some(found) => found,
            None => {
                return None;
            },
        };
        let h = XNGHeader {
            version,
            num_bones,
            bones,
            num_mesh_names,
            mesh_names,
            num_lod,
            skin_animates_flag,
            has_weight,
            unused,
            lods,
        };
        proof {
            assert(data@.subrange(bend as int, bend as int) =~= Seq::<u8>::empty());
            lemma_subrange_split(data@, s, bstart as int, bend as int);
            lemma_subrange_split(data@, s, bend as int, nstart as int);
            lemma_subrange_split(data@, s, nstart as int, nend as int);
            assert(data@.subrange(nend as int, lstart as int) =~= seq![num_lod, skin_animates_flag, has_weight, unused]);
            lemma_subrange_split(data@, s, nend as int, lstart as int);
            lemma_subrange_split(data@, s, lstart as int, end as int);
            assert(data@.subrange(s, end as int) =~= model_index_bytes(h));
        }
        Some((h, end))
    }
}

/// A header with a mesh whose streaming flag is not 1 is refused with a
/// format error, whatever the payload, and no byte is written.
pub proof fn lemma_non_streaming_mesh_refused(h: XNGHeader, data: Seq<u8>, i: int, k: int)
    requires
        0 <= i < h.lods@.len(),
        0 <= k < h.lods@[i].meshes@.len(),
        h.lods@[i].meshes@[k].streaming != 1,
    ensures
        written_model(h, data) == Err::<Seq<u8>, ConvertError>(ConvertError::Format),
{
    assert(!all_streaming(h.lods@));
}

} // verus!
