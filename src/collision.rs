//! Collision models: the header read from the scene index, and the re-encoder
//! that joins it with its streaming payload into a standard collision file.
use vstd::prelude::*;

use crate::bytes::{be_u16, be_u32, u16_be, i32_be, push_i32, push_range, push_u32, push_u32s, read_u16, read_u32, u32_be, u32s_be};
use crate::error::{bytes_result, ConvertError};
use crate::quant::{dequantize, dequantized_bits};
use crate::vector::{push_vector3, vector3_bytes, Vector3};
use crate::reader::{take_vector3, take_i32, take_u16, take_u32, take_u32s};

verus! {

/// The shape of one record of a streaming payload array, and how it is laid
/// out again in the standard file.
#[derive(Clone, Copy, Debug, PartialEq, Eq, Structural)]
pub enum RecordKind {
    /// A vector of `stride` bytes of which the first `kept` are written
    /// (a four-component vector loses its last component).
    Vector { stride: usize, kept: usize },
    /// A 64-byte tree face: two 4-float vectors, two type indices, volume,
    /// radius and padding.
    RorFace,
    /// A 36-byte tree face: volume, radius, two type indices, two 3-float vectors.
    StreamFace,
    /// A 32-byte leaf: a 4-float normal, the plane constant, three vertex
    /// indices and padding.
    RorLeaf,
    /// A 20-byte leaf: three vertex indices, two unused fields, a quantized
    /// normal and an unused field; the plane constant is derived.
    StreamLeaf,
}

/// The number of payload bytes one record takes.
pub open spec fn record_size(k: RecordKind) -> nat {
    match k {
        RecordKind::Vector { stride, .. } => stride as nat,
        RecordKind::RorFace => 64,
        RecordKind::StreamFace => 36,
        RecordKind::RorLeaf => 32,
        RecordKind::StreamLeaf => 20,
    }
}

/// A record kind that can be read: a vector keeps no more than it reads.
pub open spec fn record_kind_wf(k: RecordKind) -> bool {
    match k {
        RecordKind::Vector { stride, kept } => kept <= stride <= 16,
        _ => true,
    }
}

/// The record of kind `k` as the standard file holds it, from its payload
/// bytes `rec`; `plane` is the plane constant of a `StreamLeaf`.
///
/// A standard tree face is volume, two 3-float vectors, two type indices; a
/// standard leaf is plane constant, 3-float normal, three vertex indices.
pub open spec fn record_out(k: RecordKind, rec: Seq<u8>, plane: u32) -> Seq<u8> {
    match k {
        RecordKind::Vector { kept, .. } => rec.subrange(0, kept as int),
        RecordKind::RorFace => rec.subrange(36, 40) + rec.subrange(0, 12) + rec.subrange(16, 28)
            + rec.subrange(32, 36),
        RecordKind::StreamFace => rec.subrange(0, 4) + rec.subrange(12, 36) + rec.subrange(8, 12),
        RecordKind::RorLeaf => rec.subrange(16, 20) + rec.subrange(0, 12) + rec.subrange(20, 26),
        RecordKind::StreamLeaf => u32_be(plane) + u32_be(dequantized_bits(be_u16(rec, 12) as i16))
            + u32_be(dequantized_bits(be_u16(rec, 14) as i16)) + u32_be(
            dequantized_bits(be_u16(rec, 16) as i16),
        ) + rec.subrange(0, 6),
    }
}

/// The first `n` records of kind `k` found at `start`, laid out again;
/// record `i` of a `StreamLeaf` array takes `planes[i]`.
pub open spec fn records_out(
    k: RecordKind,
    data: Seq<u8>,
    start: int,
    n: nat,
    planes: Seq<u32>,
) -> Seq<u8>
    decreases n,
{
    if n == 0 {
        seq![]
    } else {
        let i = n - 1;
        let size = record_size(k) as int;
        records_out(k, data, start, i as nat, planes) + record_out(
            k,
            data.subrange(start + i * size, start + i * size + size),
            planes[i],
        )
    }
}

/// The number of payload bytes a record of kind `k` takes.
pub fn record_size_of(k: RecordKind) -> (r: usize)
    requires
        record_kind_wf(k),
    ensures
        r == record_size(k),
        r <= 64,
{
    match k {
        RecordKind::Vector { stride, .. } => stride,
        RecordKind::RorFace => 64,
        RecordKind::StreamFace => 36,
        RecordKind::RorLeaf => 32,
        RecordKind::StreamLeaf => 20,
    }
}

/// Appends the record of kind `k` found at `pos`, laid out again.
fn convert_record(out: &mut Vec<u8>, data: &[u8], pos: usize, k: RecordKind, plane: u32)
    requires
        record_kind_wf(k),
        pos + record_size(k) <= data@.len(),
    ensures
        final(out)@ == old(out)@ + record_out(
            k,
            data@.subrange(pos as int, pos + record_size(k)),
            plane,
        ),
{
    let ghost rec = data@.subrange(pos as int, pos + record_size(k));
    let len = data.len();
    assert(pos + record_size(k) <= len);
    match k {
        RecordKind::Vector { kept, .. } => {
            push_range(out, data, pos, pos + kept);
            assert(data@.subrange(pos as int, pos + kept) =~= rec.subrange(0, kept as int));
        },
        RecordKind::RorFace => {
            push_range(out, data, pos + 36, pos + 40);
            push_range(out, data, pos, pos + 12);
            push_range(out, data, pos + 16, pos + 28);
            push_range(out, data, pos + 32, pos + 36);
            assert(data@.subrange(pos + 36, pos + 40) =~= rec.subrange(36, 40));
            assert(data@.subrange(pos as int, pos + 12) =~= rec.subrange(0, 12));
            assert(data@.subrange(pos + 16, pos + 28) =~= rec.subrange(16, 28));
            assert(data@.subrange(pos + 32, pos + 36) =~= rec.subrange(32, 36));
        },
        RecordKind::StreamFace => {
            push_range(out, data, pos, pos + 4);
            push_range(out, data, pos + 12, pos + 36);
            push_range(out, data, pos + 8, pos + 12);
            assert(data@.subrange(pos as int, pos + 4) =~= rec.subrange(0, 4));
            assert(data@.subrange(pos + 12, pos + 36) =~= rec.subrange(12, 36));
            assert(data@.subrange(pos + 8, pos + 12) =~= rec.subrange(8, 12));
        },
        RecordKind::RorLeaf => {
            push_range(out, data, pos + 16, pos + 20);
            push_range(out, data, pos, pos + 12);
            push_range(out, data, pos + 20, pos + 26);
            assert(data@.subrange(pos + 16, pos + 20) =~= rec.subrange(16, 20));
            assert(data@.subrange(pos as int, pos + 12) =~= rec.subrange(0, 12));
            assert(data@.subrange(pos + 20, pos + 26) =~= rec.subrange(20, 26));
        },
        RecordKind::StreamLeaf => {
            push_u32(out, plane);
            let nx = dequantize(#[verifier::truncate] (read_u16(data, pos + 12) as i16));
            let ny = dequantize(#[verifier::truncate] (read_u16(data, pos + 14) as i16));
            let nz = dequantize(#[verifier::truncate] (read_u16(data, pos + 16) as i16));
            push_u32(out, nx);
            push_u32(out, ny);
            push_u32(out, nz);
            push_range(out, data, pos, pos + 6);
            assert(be_u16(rec, 12) == be_u16(data@, pos + 12));
            assert(be_u16(rec, 14) == be_u16(data@, pos + 14));
            assert(be_u16(rec, 16) == be_u16(data@, pos + 16));
            assert(data@.subrange(pos as int, pos + 6) =~= rec.subrange(0, 6));
        },
    }
    assert(final(out)@ =~= old(out)@ + record_out(k, rec, plane));
}

/// Appends `n` records of kind `k` found at `start`, laid out again.
fn convert_records(
    out: &mut Vec<u8>,
    data: &[u8],
    start: usize,
    n: u32,
    k: RecordKind,
    planes: &[u32],
)
    requires
        record_kind_wf(k),
        start + n * record_size(k) <= data@.len(),
        k == RecordKind::StreamLeaf ==> planes@.len() == n,
    ensures
        final(out)@ == old(out)@ + records_out(k, data@, start as int, n as nat, planes@),
{
    let size = record_size_of(k);
    let len = data.len();
    let mut i: u32 = 0;
    let mut pos: usize = start;
    while i < n
        invariant
            record_kind_wf(k),
            size == record_size(k),
            start + n * size <= data@.len(),
            len == data@.len(),
            k == RecordKind::StreamLeaf ==> planes@.len() == n,
            i <= n,
            pos == start + i * size,
            out@ == old(out)@ + records_out(k, data@, start as int, i as nat, planes@),
        decreases n - i,
    {
        assert(pos + size <= start + n * size) by (nonlinear_arith)
            requires
                pos == start + i * size,
                i < n,
        ;
        let plane: u32 = if k == RecordKind::StreamLeaf {
            planes[i as usize]
        } else {
            0
        };
        convert_record(out, data, pos, k, plane);
        proof {
            if k != RecordKind::StreamLeaf {
                assert(record_out(k, data@.subrange(pos as int, pos + size), plane) == record_out(
                    k,
                    data@.subrange(pos as int, pos + size),
                    planes@[i as int],
                ));
            }
        }
        assert((i + 1) * size == i * size + size) by (nonlinear_arith);
        pos = pos + size;
        i = i + 1;
    }
}

/// A tree face as the scene index stores it: volume, two vectors, two type indices.
#[derive(Clone, Copy, Debug)]
pub struct TreeFace {
    pub volume: u32,
    pub vectors: [Vector3; 2],
    pub type_indices: [i16; 2],
}

/// The header of one soul-tree collision object. Its vertex, normal, face and
/// leaf arrays are not here: they are in the streaming payload, and only the
/// counts below say how long they are.
#[derive(Clone, Debug)]
pub struct SoultreeCollisionObject {
    pub temp_cmt: i32,
    pub obb_data: Vec<u32>,
    pub reverse_collision_mode: i32,
    pub vertex_count: u32,
    pub tree_face_count: u32,
    pub tree_face_leaf_count: u32,
    pub quantized: i32,
    pub load_normals: i32,
    pub top_tree_face: TreeFace,
}

/// The vertex records of the payload: 3 floats (`quantized == 0`) or 3 `i16`
/// (`quantized == 1`), each padded to four components in the `ror` layout.
pub open spec fn vertex_record(quantized: i32, ror: bool) -> Option<RecordKind> {
    if quantized == 0 {
        Some(
            if ror {
                RecordKind::Vector { stride: 16, kept: 12 }
            } else {
                RecordKind::Vector { stride: 12, kept: 12 }
            },
        )
    } else if quantized == 1 {
        Some(
            if ror {
                RecordKind::Vector { stride: 8, kept: 6 }
            } else {
                RecordKind::Vector { stride: 6, kept: 6 }
            },
        )
    } else {
        None
    }
}

/// The normal records: present only when `load_normals == 1`, shaped as the vertices.
pub open spec fn normal_record(o: SoultreeCollisionObject, ror: bool) -> Option<RecordKind> {
    if o.load_normals == 1 {
        vertex_record(o.quantized, ror)
    } else {
        None
    }
}

pub open spec fn face_record(ror: bool) -> RecordKind {
    if ror {
        RecordKind::RorFace
    } else {
        RecordKind::StreamFace
    }
}

pub open spec fn leaf_record(ror: bool) -> RecordKind {
    if ror {
        RecordKind::RorLeaf
    } else {
        RecordKind::StreamLeaf
    }
}

/// The bytes that `n` records of an optional array take.
pub open spec fn span(k: Option<RecordKind>, n: nat) -> nat {
    match k {
        Some(k) => n * record_size(k),
        None => 0,
    }
}

pub open spec fn vertices_len(o: SoultreeCollisionObject, ror: bool) -> nat {
    span(vertex_record(o.quantized, ror), o.vertex_count as nat)
}

pub open spec fn normals_len(o: SoultreeCollisionObject, ror: bool) -> nat {
    span(normal_record(o, ror), o.vertex_count as nat)
}

/// The 16 bytes that the `ror` layout skips after the normals when the vertex
/// count is odd.
pub open spec fn odd_padding(o: SoultreeCollisionObject, ror: bool) -> nat {
    if ror && o.vertex_count % 2 == 1 {
        16
    } else {
        0
    }
}

pub open spec fn faces_len(o: SoultreeCollisionObject, ror: bool) -> nat {
    o.tree_face_count as nat * record_size(face_record(ror))
}

pub open spec fn leaves_len(o: SoultreeCollisionObject, ror: bool) -> nat {
    o.tree_face_leaf_count as nat * record_size(leaf_record(ror))
}

/// The payload bytes that the walk over one object consumes.
pub open spec fn object_len(o: SoultreeCollisionObject, ror: bool) -> nat {
    vertices_len(o, ror) + normals_len(o, ror) + odd_padding(o, ror) + faces_len(o, ror)
        + leaves_len(o, ror)
}

pub open spec fn normals_start(o: SoultreeCollisionObject, ror: bool, start: int) -> int {
    start + vertices_len(o, ror)
}

pub open spec fn faces_start(o: SoultreeCollisionObject, ror: bool, start: int) -> int {
    normals_start(o, ror, start) + normals_len(o, ror) + odd_padding(o, ror)
}

pub open spec fn leaves_start(o: SoultreeCollisionObject, ror: bool, start: int) -> int {
    faces_start(o, ror, start) + faces_len(o, ror)
}

/// The vertices that a leaf of the non-`ror` layout may name: the decoded
/// vertex array, which exists only for `quantized` 0 or 1.
pub open spec fn global_vertex_count(o: SoultreeCollisionObject, ror: bool) -> nat {
    if !ror && (o.quantized == 0 || o.quantized == 1) {
        o.vertex_count as nat
    } else {
        0
    }
}

/// The first vertex index of leaf `k` of the object whose walk starts at `start`.
pub open spec fn leaf_vertex(o: SoultreeCollisionObject, ror: bool, data: Seq<u8>, start: int, k: int) -> int {
    (be_u16(data, leaves_start(o, ror, start) + k * record_size(leaf_record(ror))) as i16) as int
}

/// Every leaf that needs a vertex to derive its plane constant names one that exists.
pub open spec fn leaves_valid(o: SoultreeCollisionObject, ror: bool, data: Seq<u8>, start: int) -> bool {
    ror || forall|k: int|
        0 <= k < o.tree_face_leaf_count ==> 0 <= #[trigger] leaf_vertex(o, ror, data, start, k)
            < global_vertex_count(o, ror)
}

/// The scalar fields that open an object in the standard file.
pub open spec fn object_header_bytes(o: SoultreeCollisionObject) -> Seq<u8> {
    i32_be(o.temp_cmt) + u32s_be(o.obb_data@) + i32_be(o.reverse_collision_mode) + u32_be(
        o.vertex_count,
    ) + u32_be(o.tree_face_count) + u32_be(o.tree_face_leaf_count) + i32_be(o.quantized)
}

pub open spec fn segment_out(
    k: Option<RecordKind>,
    data: Seq<u8>,
    start: int,
    n: nat,
    planes: Seq<u32>,
) -> Seq<u8> {
    match k {
        Some(k) => records_out(k, data, start, n, planes),
        None => seq![],
    }
}

/// One object in the standard file, its arrays taken from the walk that starts
/// at `start`: header, vertices, `load_normals`, normals, faces, leaves.
#[verifier::opaque]
pub open spec fn object_out(
    o: SoultreeCollisionObject,
    ror: bool,
    data: Seq<u8>,
    start: int,
    planes: Seq<u32>,
) -> Seq<u8> {
    object_header_bytes(o) + segment_out(
        vertex_record(o.quantized, ror),
        data,
        start,
        o.vertex_count as nat,
        planes,
    ) + i32_be(o.load_normals) + segment_out(
        normal_record(o, ror),
        data,
        normals_start(o, ror, start),
        o.vertex_count as nat,
        planes,
    ) + records_out(
        face_record(ror),
        data,
        faces_start(o, ror, start),
        o.tree_face_count as nat,
        planes,
    ) + records_out(
        leaf_record(ror),
        data,
        leaves_start(o, ror, start),
        o.tree_face_leaf_count as nat,
        planes,
    )
}

/// The byte count of each step of the walk over one object.
#[derive(Clone, Copy, Debug, PartialEq, Eq, Structural)]
pub struct ObjectLayout {
    pub vertices: u64,
    pub normals: u64,
    pub padding: u64,
    pub faces: u64,
    pub leaves: u64,
}

impl ObjectLayout {
    pub open spec fn total_spec(self) -> nat {
        (self.vertices + self.normals + self.padding + self.faces + self.leaves) as nat
    }

    /// The bytes of the whole walk.
    pub fn total(&self) -> (r: u64)
        requires
            self.total_spec() < 0x100_0000_0000,
        ensures
            r == self.total_spec(),
    {
        self.vertices + self.normals + self.padding + self.faces + self.leaves
    }
}

fn vertex_record_of(quantized: i32, ror: bool) -> (r: Option<RecordKind>)
    ensures
        r == vertex_record(quantized, ror),
        r matches Some(k) ==> record_kind_wf(k) && record_size(k) <= 16,
{
    if quantized == 0 {
        Some(
            if ror {
                RecordKind::Vector { stride: 16, kept: 12 }
            } else {
                RecordKind::Vector { stride: 12, kept: 12 }
            },
        )
    } else if quantized == 1 {
        Some(
            if ror {
                RecordKind::Vector { stride: 8, kept: 6 }
            } else {
                RecordKind::Vector { stride: 6, kept: 6 }
            },
        )
    } else {
        None
    }
}

fn normal_record_of(o: &SoultreeCollisionObject, ror: bool) -> (r: Option<RecordKind>)
    ensures
        r == normal_record(*o, ror),
        r matches Some(k) ==> record_kind_wf(k) && record_size(k) <= 16,
{
    if o.load_normals == 1 {
        vertex_record_of(o.quantized, ror)
    } else {
        None
    }
}

fn face_record_of(ror: bool) -> (r: RecordKind)
    ensures
        r == face_record(ror),
{
    if ror {
        RecordKind::RorFace
    } else {
        RecordKind::StreamFace
    }
}

fn leaf_record_of(ror: bool) -> (r: RecordKind)
    ensures
        r == leaf_record(ror),
{
    if ror {
        RecordKind::RorLeaf
    } else {
        RecordKind::StreamLeaf
    }
}

fn span_of(k: Option<RecordKind>, n: u32) -> (r: u64)
    requires
        k matches Some(k) ==> record_kind_wf(k),
    ensures
        r == span(k, n as nat),
        r <= 64 * n,
{
    match k {
        Some(k) => {
            let size = record_size_of(k);
            assert(n * size <= 64 * n) by (nonlinear_arith)
                requires
                    size <= 64,
            ;
            (n as u64) * (size as u64)
        },
        None => 0,
    }
}

/// The byte count of each step of the walk over `o`: vertices, normals, the
/// odd-count padding, faces, leaves.
pub fn object_layout(o: &SoultreeCollisionObject, ror: bool) -> (r: ObjectLayout)
    ensures
        r.vertices == vertices_len(*o, ror),
        r.normals == normals_len(*o, ror),
        r.padding == odd_padding(*o, ror),
        r.faces == faces_len(*o, ror),
        r.leaves == leaves_len(*o, ror),
        r.total_spec() == object_len(*o, ror),
        r.total_spec() < 0x100_0000_0000,
{
    let vertices = span_of(vertex_record_of(o.quantized, ror), o.vertex_count);
    let normals = span_of(normal_record_of(o, ror), o.vertex_count);
    let padding: u64 = if ror && o.vertex_count % 2 == 1 {
        16
    } else {
        0
    };
    let faces = span_of(Some(face_record_of(ror)), o.tree_face_count);
    let leaves = span_of(Some(leaf_record_of(ror)), o.tree_face_leaf_count);
    ObjectLayout { vertices, normals, padding, faces, leaves }
}

fn write_segment(
    out: &mut Vec<u8>,
    data: &[u8],
    start: usize,
    n: u32,
    k: Option<RecordKind>,
    planes: &[u32],
)
    requires
        k matches Some(k) ==> record_kind_wf(k) && k != RecordKind::StreamLeaf,
        start + span(k, n as nat) <= data@.len(),
    ensures
        final(out)@ == old(out)@ + segment_out(k, data@, start as int, n as nat, planes@),
{
    match k {
        Some(k) => convert_records(out, data, start, n, k, planes),
        None => {
            assert(final(out)@ =~= old(out)@ + segment_out(k, data@, start as int, n as nat, planes@));
        },
    }
}

/// Appends object `o` in the standard layout, its arrays taken from the walk
/// that starts at `start`.
fn write_object(
    out: &mut Vec<u8>,
    o: &SoultreeCollisionObject,
    ror: bool,
    data: &[u8],
    start: usize,
    planes: &[u32],
)
    requires
        start + object_len(*o, ror) <= data@.len(),
        !ror ==> planes@.len() == o.tree_face_leaf_count,
    ensures
        final(out)@ == old(out)@ + object_out(*o, ror, data@, start as int, planes@),
{
    reveal(object_out);
    let lay = object_layout(o, ror);
    let len = data.len();
    let ghost o0 = out@;
    push_i32(out, o.temp_cmt);
    push_u32s(out, o.obb_data.as_slice());
    push_i32(out, o.reverse_collision_mode);
    push_u32(out, o.vertex_count);
    push_u32(out, o.tree_face_count);
    push_u32(out, o.tree_face_leaf_count);
    push_i32(out, o.quantized);
    let ghost o1 = out@;
    assert(o1 =~= o0 + object_header_bytes(*o));
    write_segment(out, data, start, o.vertex_count, vertex_record_of(o.quantized, ror), planes);
    let ghost o2 = out@;
    push_i32(out, o.load_normals);
    let ghost o3 = out@;
    let normals_at: usize = start + lay.vertices as usize;
    write_segment(out, data, normals_at, o.vertex_count, normal_record_of(o, ror), planes);
    let ghost o4 = out@;
    let faces_at: usize = normals_at + lay.normals as usize + lay.padding as usize;
    convert_records(out, data, faces_at, o.tree_face_count, face_record_of(ror), planes);
    let ghost o5 = out@;
    let leaves_at: usize = faces_at + lay.faces as usize;
    convert_records(out, data, leaves_at, o.tree_face_leaf_count, leaf_record_of(ror), planes);
    proof {
        lemma_concat_chain(
            o0,
            object_header_bytes(*o),
            o2.subrange(o1.len() as int, o2.len() as int),
            i32_be(o.load_normals),
            o4.subrange(o3.len() as int, o4.len() as int),
            o5.subrange(o4.len() as int, o5.len() as int),
            out@.subrange(o5.len() as int, out@.len() as int),
        );
        assert(o2.subrange(o1.len() as int, o2.len() as int) =~= segment_out(vertex_record(o.quantized, ror), data@, start as int, o.vertex_count as nat, planes@));
        assert(o4.subrange(o3.len() as int, o4.len() as int) =~= segment_out(normal_record(*o, ror), data@, normals_at as int, o.vertex_count as nat, planes@));
        assert(o5.subrange(o4.len() as int, o5.len() as int) =~= records_out(face_record(ror), data@, faces_at as int, o.tree_face_count as nat, planes@));
        assert(out@.subrange(o5.len() as int, out@.len() as int) =~= records_out(leaf_record(ror), data@, leaves_at as int, o.tree_face_leaf_count as nat, planes@));
    }
}

/// Appending pieces one after the other appends their concatenation.
proof fn lemma_concat_chain(
    base: Seq<u8>,
    a: Seq<u8>,
    b: Seq<u8>,
    c: Seq<u8>,
    d: Seq<u8>,
    e: Seq<u8>,
    f: Seq<u8>,
)
    ensures
        base + a + b + c + d + e + f == base + (a + b + c + d + e + f),
{
    assert(base + a + b + c + d + e + f =~= base + (a + b + c + d + e + f));
}

/// Tells whether every leaf of `o` that derives its plane constant names an
/// existing vertex.
fn check_leaves(o: &SoultreeCollisionObject, ror: bool, data: &[u8], start: usize) -> (r: bool)
    requires
        start + object_len(*o, ror) <= data@.len(),
    ensures
        r == leaves_valid(*o, ror, data@, start as int),
{
    if ror {
        return true;
    }
    let lay = object_layout(o, ror);
    let len = data.len();
    let leaves_at: usize = start + lay.vertices as usize + lay.normals as usize
        + lay.padding as usize + lay.faces as usize;
    let count: u64 = if o.quantized == 0 || o.quantized == 1 {
        o.vertex_count as u64
    } else {
        0
    };
    let n = o.tree_face_leaf_count;
    let mut k: u32 = 0;
    let mut pos: usize = leaves_at;
    while k < n
        invariant
            !ror,
            n == o.tree_face_leaf_count,
            leaves_at == leaves_start(*o, ror, start as int),
            leaves_at + n * 20 <= data@.len(),
            len == data@.len(),
            count == global_vertex_count(*o, ror),
            k <= n,
            pos == leaves_at + k * 20,
            forall|j: int|
                0 <= j < k ==> 0 <= #[trigger] leaf_vertex(*o, ror, data@, start as int, j) < count,
        decreases n - k,
    {
        assert(pos + 20 <= leaves_at + n * 20) by (nonlinear_arith)
            requires
                pos == leaves_at + k * 20,
                k < n,
        ;
        let v: i16 = #[verifier::truncate] (read_u16(data, pos) as i16);
        assert(v == leaf_vertex(*o, ror, data@, start as int, k as int));
        if v < 0 || v as u64 >= count {
            return false;
        }
        pos = pos + 20;
        k = k + 1;
    }
    true
}

/// The topology tag of a collision model. The first nine are the standard
/// kinds; the last three are their streaming forms, the only ones this
/// library rebuilds.
#[derive(Clone, Copy, Debug, PartialEq, Eq, Structural)]
pub enum CollisionType {
    Soultree,
    SoultreeHeirarchy,
    Rays,
    DynamicRays,
    RadiusedLine,
    Sphere,
    Box,
    Ecosystem,
    FinitePlane,
    StreamingSoultree,
    StreamingHeirarchy,
    StreamingFinitePlane,
}

/// The tag's value on disk.
pub open spec fn collision_type_code(t: CollisionType) -> i32 {
    match t {
        CollisionType::Soultree => 0,
        CollisionType::SoultreeHeirarchy => 1,
        CollisionType::Rays => 2,
        CollisionType::DynamicRays => 3,
        CollisionType::RadiusedLine => 4,
        CollisionType::Sphere => 5,
        CollisionType::Box => 6,
        CollisionType::Ecosystem => 7,
        CollisionType::FinitePlane => 8,
        CollisionType::StreamingSoultree => 9,
        CollisionType::StreamingHeirarchy => 10,
        CollisionType::StreamingFinitePlane => 11,
    }
}

/// The tag's name.
pub open spec fn collision_type_name(t: CollisionType) -> Seq<char> {
    match t {
        CollisionType::Soultree => "Soultree"@,
        CollisionType::SoultreeHeirarchy => "SoultreeHeirarchy"@,
        CollisionType::Rays => "Rays"@,
        CollisionType::DynamicRays => "DynamicRays"@,
        CollisionType::RadiusedLine => "RadiusedLine"@,
        CollisionType::Sphere => "Sphere"@,
        CollisionType::Box => "Box"@,
        CollisionType::Ecosystem => "Ecosystem"@,
        CollisionType::FinitePlane => "FinitePlane"@,
        CollisionType::StreamingSoultree => "StreamingSoultree"@,
        CollisionType::StreamingHeirarchy => "StreamingHeirarchy"@,
        CollisionType::StreamingFinitePlane => "StreamingFinitePlane"@,
    }
}

impl CollisionType {
    /// The tag whose value on disk is `code`, if any.
    pub fn from_code(code: i32) -> (r: Option<CollisionType>)
        ensures
            r matches Some(t) ==> collision_type_code(t) == code,
            r is None <==> !(0 <= code <= 11),
    {
        match code {
            0 => Some(CollisionType::Soultree),
            1 => Some(CollisionType::SoultreeHeirarchy),
            2 => Some(CollisionType::Rays),
            3 => Some(CollisionType::DynamicRays),
            4 => Some(CollisionType::RadiusedLine),
            5 => Some(CollisionType::Sphere),
            6 => Some(CollisionType::Box),
            7 => Some(CollisionType::Ecosystem),
            8 => Some(CollisionType::FinitePlane),
            9 => Some(CollisionType::StreamingSoultree),
            10 => Some(CollisionType::StreamingHeirarchy),
            11 => Some(CollisionType::StreamingFinitePlane),
            _ => None,
        }
    }

    /// The tag's value on disk.
    pub fn code(&self) -> (r: i32)
        ensures
            r == collision_type_code(*self),
    {
        match self {
            CollisionType::Soultree => 0,
            CollisionType::SoultreeHeirarchy => 1,
            CollisionType::Rays => 2,
            CollisionType::DynamicRays => 3,
            CollisionType::RadiusedLine => 4,
            CollisionType::Sphere => 5,
            CollisionType::Box => 6,
            CollisionType::Ecosystem => 7,
            CollisionType::FinitePlane => 8,
            CollisionType::StreamingSoultree => 9,
            CollisionType::StreamingHeirarchy => 10,
            CollisionType::StreamingFinitePlane => 11,
        }
    }

    /// The tag's name.
    pub fn name(&self) -> (r: &'static str)
        ensures
            r@ == collision_type_name(*self),
    {
        match self {
            CollisionType::Soultree => "Soultree",
            CollisionType::SoultreeHeirarchy => "SoultreeHeirarchy",
            CollisionType::Rays => "Rays",
            CollisionType::DynamicRays => "DynamicRays",
            CollisionType::RadiusedLine => "RadiusedLine",
            CollisionType::Sphere => "Sphere",
            CollisionType::Box => "Box",
            CollisionType::Ecosystem => "Ecosystem",
            CollisionType::FinitePlane => "FinitePlane",
            CollisionType::StreamingSoultree => "StreamingSoultree",
            CollisionType::StreamingHeirarchy => "StreamingHeirarchy",
            CollisionType::StreamingFinitePlane => "StreamingFinitePlane",
        }
    }
}

/// One object of a soul-tree hierarchy.
#[derive(Clone, Debug)]
pub struct StreamingHeirarchyEntry {
    pub object_id: i32,
    pub object: SoultreeCollisionObject,
}

/// A collision model as the scene index holds it. Which fields mean something
/// depends on `collision_type`: `object` for a soul tree; `object_count`,
/// `reverse_collision_mode` and `objects` for a hierarchy; `plane_count` and
/// `half` for finite planes. The others hold zeros.
#[derive(Clone, Debug)]
pub struct CollisionModel {
    pub col_type: [u8; 4],
    pub version: i32,
    pub collision_type: CollisionType,
    pub object: SoultreeCollisionObject,
    pub object_count: i32,
    pub reverse_collision_mode: i32,
    pub objects: Vec<StreamingHeirarchyEntry>,
    pub plane_count: i32,
    pub half: Vector3,
}

/// What the re-encoder needs beside the header: which payload layout the
/// producer used, and the payload.
#[derive(Clone, Debug)]
pub struct CollisionModelArgs {
    /// The alternate layout: four-component vectors, 64-byte faces, 32-byte
    /// leaves that carry their plane constant, and 16 bytes of padding after
    /// the normals when the vertex count is odd.
    pub ror: bool,
    pub streaming_data: Vec<u8>,
}

/// The payload bytes that the walks over the objects consume, one after the other.
pub open spec fn objects_len(objs: Seq<StreamingHeirarchyEntry>, ror: bool) -> nat
    decreases objs.len(),
{
    if objs.len() == 0 {
        0
    } else {
        objects_len(objs.drop_last(), ror) + object_len(objs.last().object, ror)
    }
}

/// The plane constants handed to object `j`: none in the `ror` layout, whose
/// leaves carry theirs.
pub open spec fn object_planes(ror: bool, planes: Seq<Vec<u32>>, j: int) -> Seq<u32> {
    if ror {
        seq![]
    } else {
        planes[j]@
    }
}

/// The objects in the standard layout, each walk starting where the one before ended.
pub open spec fn objects_out(
    objs: Seq<StreamingHeirarchyEntry>,
    ror: bool,
    data: Seq<u8>,
    planes: Seq<Vec<u32>>,
) -> Seq<u8>
    decreases objs.len(),
{
    if objs.len() == 0 {
        seq![]
    } else {
        let j = objs.len() - 1;
        objects_out(objs.drop_last(), ror, data, planes) + object_out(
            objs.last().object,
            ror,
            data,
            objects_len(objs.drop_last(), ror) as int,
            object_planes(ror, planes, j),
        )
    }
}

/// Every object's leaves name existing vertices.
pub open spec fn objects_valid(objs: Seq<StreamingHeirarchyEntry>, ror: bool, data: Seq<u8>) -> bool {
    forall|j: int|
        0 <= j < objs.len() ==> #[trigger] leaves_valid(
            objs[j].object,
            ror,
            data,
            objects_len(objs.subrange(0, j), ror) as int,
        )
}

/// The plane-constant table has one list per object, one constant per leaf,
/// wherever the layout derives them.
pub open spec fn planes_fit(m: CollisionModel, ror: bool, planes: Seq<Vec<u32>>) -> bool {
    ror || match m.collision_type {
        CollisionType::StreamingSoultree => planes.len() == 1 && planes[0]@.len()
            == m.object.tree_face_leaf_count,
        CollisionType::StreamingHeirarchy => planes.len() == m.objects@.len() && forall|j: int|
            0 <= j < planes.len() ==> #[trigger] planes[j]@.len()
                == m.objects@[j].object.tree_face_leaf_count,
        _ => true,
    }
}

/// The magic, type tag and version that open a collision file.
pub open spec fn collision_prefix(m: CollisionModel) -> Seq<u8> {
    seq![0x00u8, 0x00u8, 0x04u8, 0xD2u8] + m.col_type@ + i32_be(m.version)
}

/// Why the walk over payload `data` for model `m` fails, if it does: a kind
/// that is not a streaming one, a walk that does not consume the payload
/// exactly, or a leaf that names a missing vertex.
pub open spec fn collision_walk_error(m: CollisionModel, ror: bool, data: Seq<u8>) -> Option<
    ConvertError,
> {
    match m.collision_type {
        CollisionType::StreamingSoultree => if object_len(m.object, ror) != data.len() {
            Some(ConvertError::BufferExhaustion)
        } else if !leaves_valid(m.object, ror, data, 0) {
            Some(ConvertError::LeafVertexOutOfRange)
        } else {
            None
        },
        CollisionType::StreamingHeirarchy => if objects_len(m.objects@, ror) != data.len() {
            Some(ConvertError::BufferExhaustion)
        } else if !objects_valid(m.objects@, ror, data) {
            Some(ConvertError::LeafVertexOutOfRange)
        } else {
            None
        },
        CollisionType::StreamingFinitePlane => None,
        _ => Some(ConvertError::Format),
    }
}

/// The standard collision file of a streaming model: its standard tag, its
/// header fields, and its payload laid out again.
pub open spec fn collision_output(
    m: CollisionModel,
    ror: bool,
    data: Seq<u8>,
    planes: Seq<Vec<u32>>,
) -> Seq<u8> {
    match m.collision_type {
        CollisionType::StreamingSoultree => collision_prefix(m) + i32_be(0) + object_out(
            m.object,
            ror,
            data,
            0,
            object_planes(ror, planes, 0),
        ),
        CollisionType::StreamingHeirarchy => collision_prefix(m) + i32_be(1) + i32_be(
            m.object_count,
        ) + i32_be(m.reverse_collision_mode) + objects_out(m.objects@, ror, data, planes),
        _ => collision_prefix(m) + i32_be(8) + i32_be(m.plane_count) + vector3_bytes(m.half)
            + data,
    }
}

/// The standard collision file rebuilt from model `m` and its payload `data`,
/// or why it cannot be. A streaming kind is written under its standard tag.
pub open spec fn written_collision(
    m: CollisionModel,
    ror: bool,
    data: Seq<u8>,
    planes: Seq<Vec<u32>>,
) -> Result<Seq<u8>, ConvertError> {
    match collision_walk_error(m, ror, data) {
        Some(e) => Err(e),
        None => if !planes_fit(m, ror, planes) {
            Err(ConvertError::PlaneCountMismatch)
        } else {
            Ok(collision_output(m, ror, data, planes))
        },
    }
}

proof fn lemma_objects_len_prefix(objs: Seq<StreamingHeirarchyEntry>, ror: bool, i: int)
    requires
        0 <= i <= objs.len(),
    ensures
        objects_len(objs.subrange(0, i), ror) <= objects_len(objs, ror),
    decreases objs.len(),
{
    if i < objs.len() {
        lemma_objects_len_prefix(objs.drop_last(), ror, i);
        assert(objs.drop_last().subrange(0, i) =~= objs.subrange(0, i));
    } else {
        assert(objs.subrange(0, i) =~= objs);
    }
}

proof fn lemma_objects_step(
    objs: Seq<StreamingHeirarchyEntry>,
    ror: bool,
    data: Seq<u8>,
    planes: Seq<Vec<u32>>,
    j: int,
)
    requires
        0 <= j < objs.len(),
    ensures
        objects_out(objs.subrange(0, j + 1), ror, data, planes) == objects_out(
            objs.subrange(0, j),
            ror,
            data,
            planes,
        ) + object_out(
            objs[j].object,
            ror,
            data,
            objects_len(objs.subrange(0, j), ror) as int,
            object_planes(ror, planes, j),
        ),
        objects_len(objs.subrange(0, j + 1), ror) == objects_len(objs.subrange(0, j), ror)
            + object_len(objs[j].object, ror),
{
    assert(objs.subrange(0, j + 1).drop_last() =~= objs.subrange(0, j));
}

proof fn lemma_seq_assoc(a: Seq<u8>, b: Seq<u8>, c: Seq<u8>)
    ensures
        a + b + c == a + (b + c),
{
    assert(a + b + c =~= a + (b + c));
}

/// The payload bytes that the walks over all objects consume, or `None` when
/// that is more than `limit`.
fn hierarchy_len(objs: &Vec<StreamingHeirarchyEntry>, ror: bool, limit: usize) -> (r: Option<usize>)
    ensures
        r matches Some(n) ==> n == objects_len(objs@, ror),
        r is None <==> objects_len(objs@, ror) > limit,
{
    let mut total: usize = 0;
    let mut j: usize = 0;
    while j < objs.len()
        invariant
            j <= objs@.len(),
            total == objects_len(objs@.subrange(0, j as int), ror),
            total <= limit,
        decreases objs@.len() - j,
    {
        let n = object_layout(&objs[j].object, ror).total();
        assert(objs@.subrange(0, j + 1).drop_last() =~= objs@.subrange(0, j as int));
        if n > (limit - total) as u64 {
            proof {
                lemma_objects_len_prefix(objs@, ror, j + 1);
            }
            return None;
        }
        total = total + n as usize;
        j = j + 1;
    }
    assert(objs@.subrange(0, objs@.len() as int) =~= objs@);
    Some(total)
}

/// Tells whether every object's leaves name existing vertices.
fn check_hierarchy_leaves(objs: &Vec<StreamingHeirarchyEntry>, ror: bool, data: &[u8]) -> (r: bool)
    requires
        objects_len(objs@, ror) == data@.len(),
    ensures
        r == objects_valid(objs@, ror, data@),
{
    let len = data.len();
    let mut cursor: usize = 0;
    let mut j: usize = 0;
    while j < objs.len()
        invariant
            objects_len(objs@, ror) == data@.len(),
            len == data@.len(),
            j <= objs@.len(),
            cursor == objects_len(objs@.subrange(0, j as int), ror),
            forall|i: int|
                0 <= i < j ==> #[trigger] leaves_valid(
                    objs@[i].object,
                    ror,
                    data@,
                    objects_len(objs@.subrange(0, i), ror) as int,
                ),
        decreases objs@.len() - j,
    {
        let o = &objs[j].object;
        proof {
            lemma_objects_step(objs@, ror, data@, seq![], j as int);
            lemma_objects_len_prefix(objs@, ror, j + 1);
        }
        if !check_leaves(o, ror, data, cursor) {
            return false;
        }
        let n = object_layout(o, ror).total();
        assert(cursor + n <= len);
        cursor = cursor + n as usize;
        j = j + 1;
    }
    true
}

/// Tells whether `planes` holds one list per object, one constant per leaf.
fn hierarchy_planes_fit(objs: &Vec<StreamingHeirarchyEntry>, planes: &Vec<Vec<u32>>) -> (r: bool)
    ensures
        r == (planes@.len() == objs@.len() && forall|j: int|
            0 <= j < planes@.len() ==> #[trigger] planes@[j]@.len()
                == objs@[j].object.tree_face_leaf_count),
{
    if planes.len() != objs.len() {
        return false;
    }
    let mut j: usize = 0;
    while j < planes.len()
        invariant
            planes@.len() == objs@.len(),
            j <= planes@.len(),
            forall|i: int|
                0 <= i < j ==> #[trigger] planes@[i]@.len() == objs@[i].object.tree_face_leaf_count,
        decreases planes@.len() - j,
    {
        if planes[j].len() as u64 != objs[j].object.tree_face_leaf_count as u64 {
            return false;
        }
        j = j + 1;
    }
    true
}

impl CollisionModel {
    /// Rebuilds the standard collision file from this header and the payload.
    ///
    /// The walk over the payload must consume it exactly; `planes` gives the
    /// plane constant of each leaf whose layout does not carry one (see
    /// `leaf_planes`), one list per object. Nothing is returned but an error
    /// for a kind that is not a streaming one.
    pub fn write(&self, args: &CollisionModelArgs, planes: &Vec<Vec<u32>>) -> (r: Result<
        Vec<u8>,
        ConvertError,
    >)
        ensures
            bytes_result(r) == written_collision(*self, args.ror, args.streaming_data@, planes@),
    {
        let ror = args.ror;
        let data = args.streaming_data.as_slice();
        let none: Vec<u32> = Vec::new();
        match self.collision_type {
            CollisionType::StreamingSoultree => {
                let total = object_layout(&self.object, ror).total();
                if total != data.len() as u64 {
                    return Err(ConvertError::BufferExhaustion);
                }
                if !check_leaves(&self.object, ror, data, 0) {
                    return Err(ConvertError::LeafVertexOutOfRange);
                }
                if !ror && (planes.len() != 1 || planes[0].len() as u64
                    != self.object.tree_face_leaf_count as u64) {
                    return Err(ConvertError::PlaneCountMismatch);
                }
                let mut out = self.prefix();
                push_i32(&mut out, 0);
                let p: &[u32] = if ror {
                    none.as_slice()
                } else {
                    planes[0].as_slice()
                };
                write_object(&mut out, &self.object, ror, data, 0, p);
                Ok(out)
            },
            CollisionType::StreamingHeirarchy => self.write_hierarchy(ror, data, planes),
            CollisionType::StreamingFinitePlane => {
                let mut out = self.prefix();
                push_i32(&mut out, 8);
                push_i32(&mut out, self.plane_count);
                push_vector3(&mut out, &self.half);
                push_range(&mut out, data, 0, data.len());
                assert(data@.subrange(0, data@.len() as int) =~= data@);
                Ok(out)
            },
            _ => Err(ConvertError::Format),
        }
    }

    fn prefix(&self) -> (r: Vec<u8>)
        ensures
            r@ == collision_prefix(*self),
    {
        let mut out: Vec<u8> = Vec::new();
        out.push(0x00);
        out.push(0x00);
        out.push(0x04);
        out.push(0xD2);
        out.push(self.col_type[0]);
        out.push(self.col_type[1]);
        out.push(self.col_type[2]);
        out.push(self.col_type[3]);
        push_i32(&mut out, self.version);
        assert(out@ =~= collision_prefix(*self));
        out
    }

    fn write_hierarchy(&self, ror: bool, data: &[u8], planes: &Vec<Vec<u32>>) -> (r: Result<
        Vec<u8>,
        ConvertError,
    >)
        requires
            self.collision_type == CollisionType::StreamingHeirarchy,
        ensures
            bytes_result(r) == written_collision(*self, ror, data@, planes@),
    {
        let objs = &self.objects;
        match hierarchy_len(objs, ror, data.len()) {
            Some(n) => {
                if n != data.len() {
                    return Err(ConvertError::BufferExhaustion);
                }
            },
            None => {
                return Err(ConvertError::BufferExhaustion);
            },
        }
        if !check_hierarchy_leaves(objs, ror, data) {
            return Err(ConvertError::LeafVertexOutOfRange);
        }
        if !ror && !hierarchy_planes_fit(objs, planes) {
            return Err(ConvertError::PlaneCountMismatch);
        }
        let none: Vec<u32> = Vec::new();
        let mut out = self.prefix();
        push_i32(&mut out, 1);
        push_i32(&mut out, self.object_count);
        push_i32(&mut out, self.reverse_collision_mode);
        let ghost base = out@;
        let len = data.len();
        let mut cursor: usize = 0;
        let mut j: usize = 0;
        while j < objs.len()
            invariant
                objs == &self.objects,
                planes_fit(*self, ror, planes@),
                self.collision_type == CollisionType::StreamingHeirarchy,
                objects_len(objs@, ror) == data@.len(),
                len == data@.len(),
                none@ == Seq::<u32>::empty(),
                j <= objs@.len(),
                cursor == objects_len(objs@.subrange(0, j as int), ror),
                objects_valid(objs@, ror, data@),
                out@ == base + objects_out(objs@.subrange(0, j as int), ror, data@, planes@),
            decreases objs@.len() - j,
        {
            let o = &objs[j].object;
            proof {
                lemma_objects_step(objs@, ror, data@, planes@, j as int);
                lemma_objects_len_prefix(objs@, ror, j + 1);
            }
            let p: &[u32] = if ror {
                none.as_slice()
            } else {
                planes[j].as_slice()
            };
            assert(p@ =~= object_planes(ror, planes@, j as int));
            assert(*o == objs@[j as int].object);
            write_object(&mut out, o, ror, data, cursor, p);
            proof {
                lemma_seq_assoc(
                    base,
                    objects_out(objs@.subrange(0, j as int), ror, data@, planes@),
                    object_out(*o, ror, data@, cursor as int, p@),
                );
            }
            let n = object_layout(o, ror).total();
            assert(cursor + n <= len);
            cursor = cursor + n as usize;
            j = j + 1;
        }
        assert(objs@.subrange(0, objs@.len() as int) =~= objs@);
        Ok(out)
    }
}

/// The vertex and the unit normal from which the plane constant of a leaf of
/// the non-`ror` layout is derived, as `-(vertex . normal)`.
#[derive(Clone, Copy, Debug, PartialEq, Eq, Structural)]
pub struct LeafPlane {
    pub vertex: Vector3,
    pub normal: Vector3,
}

/// Vertex `v` of the decoded vertex array of an object whose vertices start at
/// `start`: three floats, or three quantized values dequantized.
pub open spec fn global_vertex(o: SoultreeCollisionObject, data: Seq<u8>, start: int, v: int) -> Vector3 {
    if o.quantized == 0 {
        let p = start + v * 12;
        Vector3 { x: be_u32(data, p), y: be_u32(data, p + 4), z: be_u32(data, p + 8) }
    } else {
        let p = start + v * 6;
        Vector3 {
            x: dequantized_bits(be_u16(data, p) as i16),
            y: dequantized_bits(be_u16(data, p + 2) as i16),
            z: dequantized_bits(be_u16(data, p + 4) as i16),
        }
    }
}

/// What leaf `k` of the object whose walk starts at `start` derives its plane
/// constant from: the first vertex it names, and its dequantized normal.
pub open spec fn leaf_plane(o: SoultreeCollisionObject, data: Seq<u8>, start: int, k: int) -> LeafPlane {
    let r = leaves_start(o, false, start) + k * 20;
    LeafPlane {
        vertex: global_vertex(o, data, start, leaf_vertex(o, false, data, start, k)),
        normal: Vector3 {
            x: dequantized_bits(be_u16(data, r + 12) as i16),
            y: dequantized_bits(be_u16(data, r + 14) as i16),
            z: dequantized_bits(be_u16(data, r + 16) as i16),
        },
    }
}

fn read_vector3(data: &[u8], pos: usize) -> (r: Vector3)
    requires
        pos + 12 <= data@.len(),
    ensures
        r == (Vector3 {
            x: be_u32(data@, pos as int),
            y: be_u32(data@, pos + 4),
            z: be_u32(data@, pos + 8),
        }),
{
    let len = data.len();
    assert(pos + 12 <= len);
    Vector3 { x: read_u32(data, pos), y: read_u32(data, pos + 4), z: read_u32(data, pos + 8) }
}

fn read_quantized_vector3(data: &[u8], pos: usize) -> (r: Vector3)
    requires
        pos + 6 <= data@.len(),
    ensures
        r == (Vector3 {
            x: dequantized_bits(be_u16(data@, pos as int) as i16),
            y: dequantized_bits(be_u16(data@, pos + 2) as i16),
            z: dequantized_bits(be_u16(data@, pos + 4) as i16),
        }),
{
    let len = data.len();
    assert(pos + 6 <= len);
    Vector3 {
        x: dequantize(#[verifier::truncate] (read_u16(data, pos) as i16)),
        y: dequantize(#[verifier::truncate] (read_u16(data, pos + 2) as i16)),
        z: dequantize(#[verifier::truncate] (read_u16(data, pos + 4) as i16)),
    }
}

/// The plane inputs of every leaf of `o`, in the non-`ror` layout.
fn object_leaf_planes(o: &SoultreeCollisionObject, data: &[u8], start: usize) -> (r: Vec<LeafPlane>)
    requires
        start + object_len(*o, false) <= data@.len(),
        leaves_valid(*o, false, data@, start as int),
    ensures
        r@.len() == o.tree_face_leaf_count,
        forall|k: int| 0 <= k < r@.len() ==> #[trigger] r@[k] == leaf_plane(*o, data@, start as int, k),
{
    let lay = object_layout(o, false);
    let len = data.len();
    let leaves_at: usize = start + lay.vertices as usize + lay.normals as usize
        + lay.padding as usize + lay.faces as usize;
    let n = o.tree_face_leaf_count;
    let mut planes: Vec<LeafPlane> = Vec::new();
    let mut k: u32 = 0;
    let mut pos: usize = leaves_at;
    while k < n
        invariant
            n == o.tree_face_leaf_count,
            len == data@.len(),
            leaves_at == leaves_start(*o, false, start as int),
            leaves_at + n * 20 <= data@.len(),
            start + vertices_len(*o, false) <= data@.len(),
            leaves_valid(*o, false, data@, start as int),
            k <= n,
            pos == leaves_at + k * 20,
            planes@.len() == k,
            forall|j: int|
                0 <= j < k ==> #[trigger] planes@[j] == leaf_plane(*o, data@, start as int, j),
        decreases n - k,
    {
        assert(pos + 20 <= leaves_at + n * 20) by (nonlinear_arith)
            requires
                pos == leaves_at + k * 20,
                k < n,
        ;
        let v: i16 = #[verifier::truncate] (read_u16(data, pos) as i16);
        assert(v == leaf_vertex(*o, false, data@, start as int, k as int));
        let vu = v as usize;
        let vertex = if o.quantized == 0 {
            assert(start + vu * 12 + 12 <= start + o.vertex_count * 12) by (nonlinear_arith)
                requires
                    vu < o.vertex_count,
            ;
            read_vector3(data, start + vu * 12)
        } else {
            assert(start + vu * 6 + 6 <= start + o.vertex_count * 6) by (nonlinear_arith)
                requires
                    vu < o.vertex_count,
            ;
            read_quantized_vector3(data, start + vu * 6)
        };
        let normal = read_quantized_vector3(data, pos + 12);
        planes.push(LeafPlane { vertex, normal });
        pos = pos + 20;
        k = k + 1;
    }
    planes
}

impl CollisionModel {
    /// For each object, the plane inputs of its leaves (see `LeafPlane`):
    /// what `write` needs turned into plane constants. The `ror` layout and
    /// finite planes need none. Fails exactly where `write` fails.
    pub fn leaf_planes(&self, args: &CollisionModelArgs) -> (r: Result<Vec<Vec<LeafPlane>>, ConvertError>)
        ensures
            r matches Err(e) ==> collision_walk_error(*self, args.ror, args.streaming_data@) == Some(e),
            r is Ok <==> collision_walk_error(*self, args.ror, args.streaming_data@) is None,
            r matches Ok(p) ==> {
                let data = args.streaming_data@;
                let objs = self.objects@;
                &&& (args.ror || self.collision_type == CollisionType::StreamingFinitePlane) ==> p@.len() == 0
                &&& (!args.ror && self.collision_type == CollisionType::StreamingSoultree) ==> {
                    &&& p@.len() == 1
                    &&& p@[0]@.len() == self.object.tree_face_leaf_count
                    &&& forall|k: int|
                        0 <= k < p@[0]@.len() ==> #[trigger] p@[0]@[k] == leaf_plane(self.object, data, 0, k)
                }
                &&& (!args.ror && self.collision_type == CollisionType::StreamingHeirarchy) ==> {
                    &&& p@.len() == objs.len()
                    &&& forall|j: int| 0 <= j < objs.len() ==> #[trigger] p@[j]@.len() == objs[j].object.tree_face_leaf_count
                    &&& forall|j: int, k: int|
                        0 <= j < objs.len() && 0 <= k < p@[j]@.len() ==> #[trigger] p@[j]@[k] == leaf_plane(
                            objs[j].object,
                            data,
                            objects_len(objs.subrange(0, j), false) as int,
                            k,
                        )
                }
            },
    {
        let ror = args.ror;
        let data = args.streaming_data.as_slice();
        match self.collision_type {
            CollisionType::StreamingSoultree => {
                let total = object_layout(&self.object, ror).total();
                if total != data.len() as u64 {
                    return Err(ConvertError::BufferExhaustion);
                }
                if !check_leaves(&self.object, ror, data, 0) {
                    return Err(ConvertError::LeafVertexOutOfRange);
                }
                let mut all: Vec<Vec<LeafPlane>> = Vec::new();
                if !ror {
                    all.push(object_leaf_planes(&self.object, data, 0));
                }
                Ok(all)
            },
            CollisionType::StreamingHeirarchy => {
                let objs = &self.objects;
                match hierarchy_len(objs, ror, data.len()) {
                    Some(n) => {
                        if n != data.len() {
                            return Err(ConvertError::BufferExhaustion);
                        }
                    },
                    None => {
                        return Err(ConvertError::BufferExhaustion);
                    },
                }
                let mut all: Vec<Vec<LeafPlane>> = Vec::new();
                let len = data.len();
                let mut cursor: usize = 0;
                let mut j: usize = 0;
                while j < objs.len()
                    invariant
                        objs == &self.objects,
                        self.collision_type == CollisionType::StreamingHeirarchy,
                        data@ == args.streaming_data@,
                        ror == args.ror,
                        objects_len(objs@, ror) == data@.len(),
                        len == data@.len(),
                        j <= objs@.len(),
                        cursor == objects_len(objs@.subrange(0, j as int), ror),
                        forall|i: int|
                            0 <= i < j ==> #[trigger] leaves_valid(
                                objs@[i].object,
                                ror,
                                data@,
                                objects_len(objs@.subrange(0, i), ror) as int,
                            ),
                        ror ==> all@.len() == 0,
                        !ror ==> all@.len() == j,
                        !ror ==> forall|i: int| 0 <= i < j ==> #[trigger] all@[i]@.len() == objs@[i].object.tree_face_leaf_count,
                        !ror ==> forall|i: int, k: int|
                            0 <= i < j && 0 <= k < all@[i]@.len() ==> #[trigger] all@[i]@[k] == leaf_plane(
                                objs@[i].object,
                                data@,
                                objects_len(objs@.subrange(0, i), false) as int,
                                k,
                            ),
                    decreases objs@.len() - j,
                {
                    let o = &objs[j].object;
                    proof {
                        lemma_objects_step(objs@, ror, data@, seq![], j as int);
                        lemma_objects_len_prefix(objs@, ror, j + 1);
                    }
                    if !check_leaves(o, ror, data, cursor) {
                        return Err(ConvertError::LeafVertexOutOfRange);
                    }
                    if !ror {
                        all.push(object_leaf_planes(o, data, cursor));
                    }
                    let n = object_layout(o, ror).total();
                    assert(cursor + n <= len);
                    cursor = cursor + n as usize;
                    j = j + 1;
                }
                assert(objs@.subrange(0, objs@.len() as int) =~= objs@);
                Ok(all)
            },
            CollisionType::StreamingFinitePlane => Ok(Vec::new()),
            _ => Err(ConvertError::Format),
        }
    }
}

/// A tree face as the scene index holds it.
pub open spec fn tree_face_bytes(f: TreeFace) -> Seq<u8> {
    u32_be(f.volume) + vector3_bytes(f.vectors[0]) + vector3_bytes(f.vectors[1]) + u16_be(
        f.type_indices[0] as u16,
    ) + u16_be(f.type_indices[1] as u16)
}

/// A soul-tree object header as the scene index holds it.
pub open spec fn soultree_object_bytes(o: SoultreeCollisionObject) -> Seq<u8> {
    i32_be(o.temp_cmt) + u32s_be(o.obb_data@) + i32_be(o.reverse_collision_mode) + u32_be(
        o.vertex_count,
    ) + u32_be(o.tree_face_count) + u32_be(o.tree_face_leaf_count) + i32_be(o.quantized) + i32_be(
        o.load_normals,
    ) + tree_face_bytes(o.top_tree_face)
}

/// The bytes a soul-tree object header takes in the scene index.
pub const SOULTREE_OBJECT_SIZE: usize = 108;

pub open spec fn entries_bytes(es: Seq<StreamingHeirarchyEntry>) -> Seq<u8>
    decreases es.len(),
{
    if es.len() == 0 {
        seq![]
    } else {
        entries_bytes(es.drop_last()) + i32_be(es.last().object_id) + soultree_object_bytes(
            es.last().object,
        )
    }
}

/// The tag that opens a collision model, in the scene index and in the file.
pub open spec fn collision_magic() -> Seq<u8> {
    seq![0x00u8, 0x00u8, 0x04u8, 0xD2u8]
}

/// A collision model as the scene index holds it: after the magic, type tag,
/// version and topology tag, the fields of its topology.
pub open spec fn collision_model_bytes(m: CollisionModel) -> Seq<u8> {
    collision_head_bytes(m) + collision_body_bytes(m)
}

pub open spec fn collision_head_bytes(m: CollisionModel) -> Seq<u8> {
    collision_magic() + m.col_type@ + i32_be(m.version) + i32_be(
        collision_type_code(m.collision_type),
    )
}

pub open spec fn collision_body_bytes(m: CollisionModel) -> Seq<u8> {
    match m.collision_type {
        CollisionType::StreamingSoultree => soultree_object_bytes(m.object),
        CollisionType::StreamingHeirarchy => i32_be(m.object_count) + i32_be(
            m.reverse_collision_mode,
        ) + entries_bytes(m.objects@),
        CollisionType::StreamingFinitePlane => i32_be(m.plane_count) + vector3_bytes(m.half),
        _ => seq![],
    }
}

/// The counts of a model read from the scene index agree with what follows them.
pub open spec fn collision_model_wf(m: CollisionModel) -> bool {
    &&& m.collision_type == CollisionType::StreamingSoultree ==> m.object.obb_data@.len() == 12
    &&& m.collision_type == CollisionType::StreamingHeirarchy ==> {
        &&& m.objects@.len() == m.object_count
        &&& forall|j: int| 0 <= j < m.objects@.len() ==> (#[trigger] m.objects@[j]).object.obb_data@.len() == 12
    }
}

/// The bytes at `pos` hold a collision model that can be read: the magic, a
/// known topology tag, and as many bytes as that topology's fields take (for
/// a hierarchy, a non-negative object count and 112 bytes per object).
pub open spec fn collision_fits(data: Seq<u8>, pos: int) -> bool {
    &&& pos + 16 <= data.len()
    &&& data.subrange(pos, pos + 4) == collision_magic()
    &&& {
        let code = be_u32(data, pos + 12) as i32;
        &&& 0 <= code <= 11
        &&& code == 9 ==> pos + 16 + SOULTREE_OBJECT_SIZE <= data.len()
        &&& code == 10 ==> pos + 24 <= data.len() && {
            let n = be_u32(data, pos + 16) as i32;
            0 <= n && pos + 24 + 112 * n <= data.len()
        }
        &&& code == 11 ==> pos + 32 <= data.len()
    }
}

/// Where a collision model that starts at `pos` ends, if the bytes hold one.
pub open spec fn collision_end(data: Seq<u8>, pos: int) -> Option<int> {
    if !collision_fits(data, pos) {
        None
    } else {
        let code = be_u32(data, pos + 12) as i32;
        Some(
            pos + 16 + if code == 9 {
                SOULTREE_OBJECT_SIZE as int
            } else if code == 10 {
                8 + 112 * (be_u32(data, pos + 16) as i32)
            } else if code == 11 {
                16int
            } else {
                0int
            },
        )
    }
}

/// Reads a soul-tree object header at `pos`.
pub fn parse_soultree_object(data: &[u8], pos: usize) -> (r: Option<(SoultreeCollisionObject, usize)>)
    ensures
        r is None <==> pos + SOULTREE_OBJECT_SIZE > data@.len(),
        r matches Some((o, end)) ==> end == pos + SOULTREE_OBJECT_SIZE && o.obb_data@.len() == 12
            && data@.subrange(pos as int, end as int) == soultree_object_bytes(o),
{
    let len = data.len();
    if pos > len || len - pos < SOULTREE_OBJECT_SIZE {
        return None;
    }
    let ghost s = pos as int;
    let temp_cmt = take_i32(data, pos, Ghost(s));
    let obb_data = take_u32s(data, pos + 4, 12, Ghost(s));
    let reverse_collision_mode = take_i32(data, pos + 52, Ghost(s));
    let vertex_count = take_u32(data, pos + 56, Ghost(s));
    let tree_face_count = take_u32(data, pos + 60, Ghost(s));
    let tree_face_leaf_count = take_u32(data, pos + 64, Ghost(s));
    let quantized = take_i32(data, pos + 68, Ghost(s));
    let load_normals = take_i32(data, pos + 72, Ghost(s));
    let volume = take_u32(data, pos + 76, Ghost(s));
    let v0 = take_vector3(data, pos + 80, Ghost(s));
    let v1 = take_vector3(data, pos + 92, Ghost(s));
    let t0 = take_u16(data, pos + 104, Ghost(s));
    let t1 = take_u16(data, pos + 106, Ghost(s));
    let i0: i16 = #[verifier::truncate] (t0 as i16);
    let i1: i16 = #[verifier::truncate] (t1 as i16);
    assert((i0 as u16) == t0) by (bit_vector)
        requires
            i0 == (t0 as i16),
    ;
    assert((i1 as u16) == t1) by (bit_vector)
        requires
            i1 == (t1 as i16),
    ;
    let top_tree_face = TreeFace { volume, vectors: [v0, v1], type_indices: [i0, i1] };
    let o = SoultreeCollisionObject {
        temp_cmt,
        obb_data,
        reverse_collision_mode,
        vertex_count,
        tree_face_count,
        tree_face_leaf_count,
        quantized,
        load_normals,
        top_tree_face,
    };
    assert(data@.subrange(s, s) =~= Seq::<u8>::empty());
    assert(data@.subrange(s, pos + 108) =~= soultree_object_bytes(o));
    Some((o, pos + 108))
}

fn empty_object() -> (r: SoultreeCollisionObject) {
    let zero = Vector3 { x: 0, y: 0, z: 0 };
    SoultreeCollisionObject {
        temp_cmt: 0,
        obb_data: Vec::new(),
        reverse_collision_mode: 0,
        vertex_count: 0,
        tree_face_count: 0,
        tree_face_leaf_count: 0,
        quantized: 0,
        load_normals: 0,
        top_tree_face: TreeFace { volume: 0, vectors: [zero, zero], type_indices: [0, 0] },
    }
}

/// Reads `count` hierarchy entries at `pos`.
#[verifier::rlimit(40)]
fn parse_entries(data: &[u8], pos: usize, count: i32) -> (r: Option<(Vec<StreamingHeirarchyEntry>, usize)>)
    requires
        0 <= count,
        pos <= data@.len(),
    ensures
        r is Some <==> pos + 112 * count <= data@.len(),
        r matches Some((es, end)) ==> end == pos + 112 * count && es@.len() == count && (forall|
            i: int,
        | 0 <= i < es@.len() ==> (#[trigger] es@[i]).object.obb_data@.len() == 12)
            && data@.subrange(pos as int, end as int) == entries_bytes(es@),
{
    let len = data.len();
    let mut p: usize = pos;
    let mut objects: Vec<StreamingHeirarchyEntry> = Vec::new();
    let mut j: i32 = 0;
    assert(data@.subrange(pos as int, pos as int) =~= Seq::<u8>::empty());
    while j < count
        invariant
            0 <= j <= count,
            len == data@.len(),
            pos <= p <= len,
            p == pos + 112 * j,
            objects@.len() == j,
            forall|i: int| 0 <= i < objects@.len() ==> (#[trigger] objects@[i]).object.obb_data@.len() == 12,
            data@.subrange(pos as int, p as int) == entries_bytes(objects@),
        decreases count - j,
    {
        assert(pos + 112 * count >= p + 112) by (nonlinear_arith)
            requires
                p == pos + 112 * j,
                j < count,
        ;
        if len - p < 4 {
            return None;
        }
        let object_id = take_i32(data, p, Ghost(pos as int));
        let (object, end) = match parse_soultree_object(data, p + 4) {
            Some(found) => found,
            None => {
                return None;
            },
        };
        let ghost before = objects@;
        assert(data@.subrange(pos as int, end as int) =~= data@.subrange(pos as int, p + 4)
            + data@.subrange(p + 4, end as int));
        objects.push(StreamingHeirarchyEntry { object_id, object });
        assert(objects@.drop_last() =~= before);
        p = end;
        j = j + 1;
    }
    assert(p == pos + 112 * count);
    Some((objects, p))
}

impl CollisionModel {
    /// Reads a collision model from the scene index at `pos`: the magic
    /// `00 00 04 D2`, a type tag, a version, a topology tag, and the fields of
    /// that topology (none for the standard kinds). Gives the model and the
    /// position after it, or `None` when the bytes run out, the magic or the
    /// topology tag is wrong, or an object count is negative.
    #[verifier::rlimit(40)]
    pub fn parse(data: &[u8], pos: usize) -> (r: Option<(CollisionModel, usize)>)
        ensures
            r is Some <==> collision_fits(data@, pos as int),
            r matches Some((m, end)) ==> collision_end(data@, pos as int) == Some(end as int)
                && pos <= end <= data@.len() && collision_model_wf(m)
                && data@.subrange(pos as int, end as int) == collision_model_bytes(m),
    {
        let len = data.len();
        if pos > len || len - pos < 16 {
            return None;
        }
        if data[pos] != 0x00 || data[pos + 1] != 0x00 || data[pos + 2] != 0x04 || data[pos + 3]
            != 0xD2 {
            proof {
                let head = data@.subrange(pos as int, pos + 4);
                assert(head[0] == data@[pos as int] && head[1] == data@[pos + 1] && head[2]
                    == data@[pos + 2] && head[3] == data@[pos + 3]);
                assert(head != collision_magic());
            }
            return None;
        }
        let ghost s = pos as int;
        assert(data@.subrange(s, pos + 4) =~= collision_magic());
        let col_type = [data[pos + 4], data[pos + 5], data[pos + 6], data[pos + 7]];
        assert(data@.subrange(s, pos + 8) =~= collision_magic() + col_type@);
        let version = take_i32(data, pos + 8, Ghost(s));
        let code = take_i32(data, pos + 12, Ghost(s));
        let collision_type = match CollisionType::from_code(code) {
            Some(t) => t,
            None => {
                return None;
            },
        };
        let body_at: usize = pos + 16;
        let ghost head = data@.subrange(s, body_at as int);
        let mut m = CollisionModel {
            col_type,
            version,
            collision_type,
            object: empty_object(),
            object_count: 0,
            reverse_collision_mode: 0,
            objects: Vec::new(),
            plane_count: 0,
            half: Vector3 { x: 0, y: 0, z: 0 },
        };
        let mut end: usize = body_at;
        assert(data@.subrange(body_at as int, body_at as int) =~= Seq::<u8>::empty());
        match collision_type {
            CollisionType::StreamingSoultree => {
                match parse_soultree_object(data, body_at) {
                    Some((o, e)) => {
                        m.object = o;
                        end = e;
                    },
                    None => {
                        return None;
                    },
                }
            },
            CollisionType::StreamingHeirarchy => {
                if len - body_at < 8 {
                    return None;
                }
                let object_count = take_i32(data, body_at, Ghost(body_at as int));
                let rcm = take_i32(data, body_at + 4, Ghost(body_at as int));
                if object_count < 0 {
                    return None;
                }
                match parse_entries(data, body_at + 8, object_count) {
                    Some((objects, e)) => {
                        assert(data@.subrange(body_at as int, e as int) =~= data@.subrange(
                            body_at as int,
                            body_at + 8,
                        ) + data@.subrange(body_at + 8, e as int));
                        m.object_count = object_count;
                        m.reverse_collision_mode = rcm;
                        m.objects = objects;
                        end = e;
                    },
                    None => {
                        return None;
                    },
                }
            },
            CollisionType::StreamingFinitePlane => {
                if len - body_at < 16 {
                    return None;
                }
                m.plane_count = take_i32(data, body_at, Ghost(body_at as int));
                m.half = take_vector3(data, body_at + 4, Ghost(body_at as int));
                end = body_at + 16;
            },
            _ => {},
        }
        assert(head == collision_head_bytes(m));
        assert(data@.subrange(body_at as int, end as int) == collision_body_bytes(m));
        assert(data@.subrange(s, end as int) =~= head + data@.subrange(body_at as int, end as int));
        Some((m, end))
    }
}

/// Whenever a streaming soul tree is rebuilt, the five steps of the walk over
/// its payload (vertices, normals, the odd-count padding, faces, leaves)
/// consume the payload exactly, in either layout, quantized or not, with or
/// without normals; and whenever they would not, it is refused for
/// exhausting the buffer.
pub proof fn lemma_walk_consumes_payload(
    m: CollisionModel,
    ror: bool,
    data: Seq<u8>,
    planes: Seq<Vec<u32>>,
)
    requires
        m.collision_type == CollisionType::StreamingSoultree,
    ensures
        written_collision(m, ror, data, planes) is Ok ==> vertices_len(m.object, ror) + normals_len(
            m.object,
            ror,
        ) + odd_padding(m.object, ror) + faces_len(m.object, ror) + leaves_len(m.object, ror)
            == data.len(),
        object_len(m.object, ror) != data.len() ==> written_collision(m, ror, data, planes) == Err::<
            Seq<u8>,
            ConvertError,
        >(ConvertError::BufferExhaustion),
{
}

/// A model whose topology tag is one of the standard kinds, rather than a
/// streaming one, is refused with a format error, and no byte is written.
pub proof fn lemma_standard_kinds_refused(
    m: CollisionModel,
    ror: bool,
    data: Seq<u8>,
    planes: Seq<Vec<u32>>,
)
    requires
        m.collision_type != CollisionType::StreamingSoultree,
        m.collision_type != CollisionType::StreamingHeirarchy,
        m.collision_type != CollisionType::StreamingFinitePlane,
    ensures
        written_collision(m, ror, data, planes) == Err::<Seq<u8>, ConvertError>(ConvertError::Format),
{
}

} // verus!
